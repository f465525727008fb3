use misskey::api::charts::drive::Request as ChartRequest;
use misskey::api::drive::folders::create::Request as FolderCreateRequest;
use misskey::api::notes::reactions::create::Request as ReactionRequest;
use misskey::api::users::groups::transfer::Request as TransferRequest;
use misskey::endpoint::admin::ad::create::Request as AdCreateRequest;
use misskey::endpoint::admin::announcements::list::Request as AnnouncementsRequest;
use misskey::endpoint::gallery::posts::unlike::Request as UnlikeRequest;
use misskey::endpoint::roles::show::Request as RoleShowRequest;
use misskey::endpoint::users::lists::show::Request as ListShowRequest;
use misskey::model::{
    Announcement, AnnouncementId, ChartSpan, DriveFolderId, Id, NoteId, Place, Priority,
    ReactionType, Timestamp, UserGroupId, UserId,
};
use misskey::request::{Entity, OffsetPaginationRequest, PaginationRequest, Request};
use misskey::streaming::SubNoteId;

fn announcement(id: &str) -> Announcement {
    Announcement {
        id: AnnouncementId(id.to_string()),
        created_at: Timestamp { millis: 0 },
        updated_at: None,
        text: "ok".to_string(),
        title: "hello".to_string(),
        image_url: None,
    }
}

#[test]
fn endpoints() {
    assert_eq!(ReactionRequest::ENDPOINT, "notes/reactions/create");
    assert_eq!(FolderCreateRequest::ENDPOINT, "drive/folders/create");
    assert_eq!(TransferRequest::ENDPOINT, "users/groups/transfer");
    assert_eq!(ChartRequest::ENDPOINT, "charts/drive");
    assert_eq!(AdCreateRequest::ENDPOINT, "admin/ad/create");
    assert_eq!(AnnouncementsRequest::ENDPOINT, "admin/announcements/list");
    assert_eq!(UnlikeRequest::ENDPOINT, "gallery/posts/unlike");
    assert_eq!(RoleShowRequest::ENDPOINT, "roles/show");
    assert_eq!(ListShowRequest::ENDPOINT, "users/lists/show");
}

#[test]
fn folder_create_request() {
    let r = FolderCreateRequest { name: None, parent_id: None };
    assert!(r.name.is_none() && r.parent_id.is_none());
}

#[test]
fn request_with_name() {
    let r = FolderCreateRequest { name: Some("folder".to_string()), parent_id: None };
    assert_eq!(r.name.as_deref(), Some("folder"));
}

#[test]
fn request_with_parent() {
    let r = FolderCreateRequest { name: None, parent_id: Some(DriveFolderId("f1".to_string())) };
    assert_eq!(r.parent_id, Some(DriveFolderId("f1".to_string())));
}

#[test]
fn transfer_request() {
    let r = TransferRequest {
        group_id: UserGroupId("g".to_string()),
        user_id: UserId("u".to_string()),
    };
    assert_eq!(r.group_id.0, "g");
    assert_eq!(r.user_id.0, "u");
}

#[test]
fn reaction_request() {
    let r = ReactionRequest {
        note_id: NoteId("n".to_string()),
        reaction: ReactionType("👍".to_string()),
    };
    assert_eq!(r.reaction.0, "👍");
}

#[test]
fn ad_create_request() {
    let r = AdCreateRequest::builder()
        .url("https://misskey.example/avatar.png")
        .memo("memo")
        .place(Place::Square)
        .priority(Priority::Middle)
        .ratio(1)
        .image_url("https://misskey.example/avatar.png")
        .starts_at(Timestamp { millis: 1_000 })
        .expires_at(Timestamp { millis: 3_601_000 })
        .day_of_week(0b0100_0001)
        .build();
    assert_eq!(r.url, "https://misskey.example/avatar.png");
    assert_eq!(r.memo, "memo");
    assert_eq!(r.place, Place::Square);
    assert_eq!(r.priority, Priority::Middle);
    assert_eq!(r.ratio, 1);
    assert_eq!(r.starts_at, Timestamp { millis: 1_000 });
    assert_eq!(r.expires_at, Timestamp { millis: 3_601_000 });
    assert_eq!(r.day_of_week, 0b0100_0001);
}

#[test]
fn ad_create_defaults() {
    let r = AdCreateRequest::builder()
        .url("u")
        .expires_at(Timestamp { millis: 5 })
        .image_url("i")
        .build();
    assert_eq!(r.memo, "");
    assert_eq!(r.place, Place::Square);
    assert_eq!(r.priority, Priority::Middle);
    assert_eq!(r.ratio, 0);
    assert_eq!(r.starts_at, Timestamp { millis: 0 });
    assert_eq!(r.day_of_week, 0);
    assert_eq!(Place::default(), Place::Square);
    assert_eq!(Priority::default(), Priority::Middle);
}

#[test]
fn list_request() {
    let r = AnnouncementsRequest::default();
    assert!(r.limit.is_none() && r.since_id.is_none() && r.until_id.is_none());
}

#[test]
fn request_with_options() {
    let r = AnnouncementsRequest { limit: Some(100), since_id: None, until_id: None };
    assert_eq!(r.limit, Some(100));
    let b = AnnouncementsRequest::builder().limit(100).build();
    assert_eq!(b.limit, Some(100));
    assert!(b.since_id.is_none() && b.until_id.is_none());
}

#[test]
fn request_paginate() {
    let a = announcement("a1");
    let mut r = AnnouncementsRequest::builder().limit(10).build();
    r.set_since(&a);
    r.set_until(&a);
    assert_eq!(r.since_id, Some(AnnouncementId("a1".to_string())));
    assert_eq!(r.until_id, Some(AnnouncementId("a1".to_string())));
    assert_eq!(r.limit, Some(10));
    let b = AnnouncementsRequest::builder()
        .since_id(a.id())
        .until_id(AnnouncementId("a2".to_string()))
        .build();
    assert_eq!(b.since_id, Some(AnnouncementId("a1".to_string())));
    assert_eq!(b.until_id, Some(AnnouncementId("a2".to_string())));
}

#[test]
fn set_since_keeps_until() {
    let mut r = AnnouncementsRequest::default();
    r.set_until(&announcement("late"));
    r.set_since(&announcement("early"));
    assert_eq!(r.until_id, Some(AnnouncementId("late".to_string())));
    assert_eq!(r.since_id, Some(AnnouncementId("early".to_string())));
}

#[test]
fn chart_offset() {
    let mut r = ChartRequest { span: ChartSpan::Day, limit: Some(30), offset: None };
    r.set_offset(60);
    assert_eq!(r.offset, Some(60));
    assert_eq!(r.limit, Some(30));
    assert_eq!(r.span, ChartSpan::Day);
}

#[test]
fn unlike_request() {
    let r = UnlikeRequest { post_id: Id::new("post".to_string()) };
    assert_eq!(r.post_id.id, "post");
}

#[test]
fn show_request() {
    let r = RoleShowRequest { role_id: Id::new("role".to_string()) };
    assert_eq!(r.role_id.duplicate().id, "role");
    let l = ListShowRequest { list_id: Id::new("list".to_string()) };
    assert_eq!(l.list_id.id, "list");
}

#[test]
fn sub_note_id_text() {
    let id: SubNoteId = "abc".parse().unwrap();
    assert_eq!(id, SubNoteId("abc".to_string()));
    assert_eq!(id.to_string(), "abc");
    assert_eq!(SubNoteId::from_text("x").0, "x");
}
