pub mod ad;
pub mod announcements;
