use crate::request::Entity;
use std::marker::PhantomData;
use vstd::prelude::*;

verus! {

/// A point in time, as milliseconds since the Unix epoch.
#[derive(PartialEq, Eq, Structural, Clone, Copy, Debug)]
pub struct Timestamp {
    pub millis: i64,
}

/// The id of a note.
#[derive(Clone, PartialEq, Eq, Hash, Debug)]
pub struct NoteId(pub String);

/// A reaction, such as an emoji.
#[derive(Clone, PartialEq, Eq, Hash, Debug)]
pub struct ReactionType(pub String);

/// The id of a user.
#[derive(Clone, PartialEq, Eq, Hash, Debug)]
pub struct UserId(pub String);

/// The id of a drive folder.
#[derive(Clone, PartialEq, Eq, Hash, Debug)]
pub struct DriveFolderId(pub String);

/// The id of a user group.
#[derive(Clone, PartialEq, Eq, Hash, Debug)]
pub struct UserGroupId(pub String);

/// The id of an announcement.
#[derive(Clone, PartialEq, Eq, Hash, Debug)]
pub struct AnnouncementId(pub String);

/// The id of an object of type `T`.
#[derive(Debug)]
pub struct Id<T> {
    pub id: String,
    pub marker: PhantomData<T>,
}

impl<T> Id<T> {
    /// The id whose text is `id`.
    pub fn new(id: String) -> (r: Id<T>)
        ensures
            r.id == id,
    {
        Id { id, marker: PhantomData }
    }

    /// A copy of this id.
    pub fn duplicate(&self) -> (r: Id<T>)
        ensures
            r.id == self.id,
    {
        Id { id: self.id.clone(), marker: PhantomData }
    }
}

/// The time unit of chart values.
#[derive(PartialEq, Eq, Structural, Clone, Copy, Debug)]
pub enum ChartSpan {
    Day,
    Hour,
}

/// Where an ad is placed.
#[derive(PartialEq, Eq, Structural, Clone, Copy, Debug)]
pub enum Place {
    Square,
    Horizontal,
    HorizontalBig,
}

impl Default for Place {
    fn default() -> (r: Place)
        ensures
            r == Place::Square,
    {
        Place::Square
    }
}

/// How often an ad is shown.
#[derive(PartialEq, Eq, Structural, Clone, Copy, Debug)]
pub enum Priority {
    High,
    Middle,
    Low,
}

impl Default for Priority {
    fn default() -> (r: Priority)
        ensures
            r == Priority::Middle,
    {
        Priority::Middle
    }
}

/// Drive usage over time, newest first.
#[derive(Clone, Debug)]
pub struct DriveChart {
    pub total_count: Vec<u64>,
    pub total_size: Vec<u64>,
    pub inc_count: Vec<u64>,
    pub inc_size: Vec<u64>,
    pub dec_count: Vec<u64>,
    pub dec_size: Vec<u64>,
}

/// A folder in a drive.
#[derive(Clone, Debug)]
pub struct DriveFolder {
    pub id: DriveFolderId,
    pub created_at: Timestamp,
    pub name: String,
    pub parent_id: Option<DriveFolderId>,
}

/// A group of users.
#[derive(Clone, Debug)]
pub struct UserGroup {
    pub id: UserGroupId,
    pub created_at: Timestamp,
    pub name: String,
    pub owner_id: UserId,
    pub user_ids: Vec<UserId>,
}

/// An announcement of the instance.
#[derive(Clone, Debug)]
pub struct Announcement {
    pub id: AnnouncementId,
    pub created_at: Timestamp,
    pub updated_at: Option<Timestamp>,
    pub text: String,
    pub title: String,
    pub image_url: Option<String>,
}

impl Entity for Announcement {
    type Id = AnnouncementId;

    open spec fn spec_id(&self) -> AnnouncementId {
        self.id
    }

    fn id(&self) -> (r: AnnouncementId) {
        AnnouncementId(self.id.0.clone())
    }
}

/// A role users can be given.
#[derive(Debug)]
pub struct Role {
    /// The text of its `Id<Role>`.
    pub id: String,
    pub created_at: Timestamp,
    pub name: String,
    pub description: String,
    pub is_public: bool,
}

/// A list of users.
#[derive(Debug)]
pub struct UserList {
    /// The text of its `Id<UserList>`.
    pub id: String,
    pub created_at: Timestamp,
    pub name: String,
    pub user_ids: Vec<UserId>,
}

/// A post in the gallery.
#[derive(Debug)]
pub struct GalleryPost {
    /// The text of its `Id<GalleryPost>`.
    pub id: String,
    pub created_at: Timestamp,
    pub user_id: UserId,
    pub title: String,
    pub description: Option<String>,
    pub is_sensitive: bool,
}

} // verus!
