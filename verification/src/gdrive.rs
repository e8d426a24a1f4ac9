//! Remote file metadata.
//!
//! Listing, downloading and uploading happen in outside collaborators;
//! what the core sees of a remote store are these plain metadata records.

use vstd::prelude::*;

verus! {

/// One remote file's metadata.
#[derive(Debug, Clone, PartialEq)]
pub struct DriveFile {
    pub id: String,
    pub name: String,
    pub mime_type: String,
    pub size: Option<u64>,
    pub created_time: String,
    pub modified_time: String,
    pub parents: Option<Vec<String>>,
    pub web_view_link: Option<String>,
    pub web_content_link: Option<String>,
}

/// The account a remote store is accessed as.
#[derive(Debug, Clone, PartialEq)]
pub struct UserInfo {
    pub display_name: String,
    pub email_address: String,
    pub photo_link: Option<String>,
}

} // verus!
