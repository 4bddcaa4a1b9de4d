use vstd::prelude::*;

verus! {

/// The command line of the client.
#[derive(Debug)]
pub struct Args {
    pub command: Option<Command>,
}

/// What the client is asked to do once.
#[derive(Debug)]
pub enum Command {
    /// Refresh the RSS feeds.
    Update,
    /// Follow an RSS link.
    AddLink { link: String },
    /// Stop following an RSS link.
    DelLink,
}

/// Name of the command that follows an RSS link.
pub const ADD_LINK: &'static str = "add-link";

/// Name of the command that downloads a folder.
pub const DOWNLOAD_FOLDER: &'static str = "download-folder";

} // verus!
