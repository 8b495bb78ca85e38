//! Verified core of the gitserious terminal adapters: the structured commit
//! document behind the composer, the authoring session state machine, the
//! taxonomy configuration editor's navigation and drafts, and the layout
//! arithmetic that the screens share.

pub mod text;
pub mod layout;
pub mod schema;
pub mod document;
pub mod editor;
pub mod issues;
pub mod composer;
pub mod draft;
pub mod authoring;
pub mod taxonomy;
pub mod measure;
pub mod chrome;


