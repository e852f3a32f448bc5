//! One remembered connection to a Jupyter server.

use chrono::NaiveDateTime;
use vstd::prelude::*;

verus! {

/// A moment in time without a time zone, `chrono::NaiveDateTime`. Connections
/// carry such values unread; nothing is claimed of what is inside one.
#[verifier::external_type_specification]
#[verifier::external_body]
pub struct ExNaiveDateTime(NaiveDateTime);

/// A connection to a Jupyter server. Its moments in time are in UTC.
#[derive(Debug)]
pub struct JupyterConnection {
    pub server_url: String,
    pub token: String,
    pub connected_at: NaiveDateTime,
    pub working_dir: Option<String>,
    pub last_validated: Option<NaiveDateTime>,
    /// Environment manager used when connecting (direct, uv, pixi).
    pub env_manager: Option<String>,
    /// Project root path for uv/pixi environments.
    pub project_root: Option<String>,
    /// Whether the Y.js/collaboration backend is available on the server;
    /// `None` means unknown.
    pub ydoc_available: Option<bool>,
}

/// What a [`JupyterConnection`] says, with its texts as character sequences.
#[verifier::ext_equal]
pub struct ConnectionView {
    pub server_url: Seq<char>,
    pub token: Seq<char>,
    pub connected_at: NaiveDateTime,
    pub working_dir: Option<Seq<char>>,
    pub last_validated: Option<NaiveDateTime>,
    pub env_manager: Option<Seq<char>>,
    pub project_root: Option<Seq<char>>,
    pub ydoc_available: Option<bool>,
}

/// The characters of an optional text.
pub open spec fn text_view(text: Option<String>) -> Option<Seq<char>> {
    match text {
        Some(t) => Some(t@),
        None => None,
    }
}

impl View for JupyterConnection {
    type V = ConnectionView;

    open spec fn view(&self) -> ConnectionView {
        ConnectionView {
            server_url: self.server_url@,
            token: self.token@,
            connected_at: self.connected_at,
            working_dir: text_view(self.working_dir),
            last_validated: self.last_validated,
            env_manager: text_view(self.env_manager),
            project_root: text_view(self.project_root),
            ydoc_available: self.ydoc_available,
        }
    }
}

/// What a connection says leaves nothing out: connections that say the same
/// agree in every field.
pub proof fn law_connection_says_all(a: JupyterConnection, b: JupyterConnection)
    ensures
        a@ == b@ ==> {
            &&& a.server_url@ == b.server_url@
            &&& a.token@ == b.token@
            &&& a.connected_at == b.connected_at
            &&& a.last_validated == b.last_validated
            &&& a.ydoc_available == b.ydoc_available
        },
        a@ == b@ ==> {
            &&& a.working_dir is Some == b.working_dir is Some
            &&& a.working_dir is Some ==> a.working_dir->0@ == b.working_dir->0@
            &&& a.env_manager is Some == b.env_manager is Some
            &&& a.env_manager is Some ==> a.env_manager->0@ == b.env_manager->0@
            &&& a.project_root is Some == b.project_root is Some
            &&& a.project_root is Some ==> a.project_root->0@ == b.project_root->0@
        },
        a@.server_url == a.server_url@,
        a@.token == a.token@,
{
}

/// The characters of an optional text are those of the text, if there is one.
pub proof fn law_text_view_says_all(text: Option<String>)
    ensures
        text_view(text) is Some == text is Some,
        text matches Some(t) ==> text_view(text) == Some(t@),
{
}

impl Clone for JupyterConnection {
    /// A second copy, the same in every field.
    fn clone(&self) -> (copy: Self)
        ensures
            copy == *self,
    {
        JupyterConnection {
            server_url: self.server_url.clone(),
            token: self.token.clone(),
            connected_at: self.connected_at,
            working_dir: clone_text(&self.working_dir),
            last_validated: self.last_validated,
            env_manager: clone_text(&self.env_manager),
            project_root: clone_text(&self.project_root),
            ydoc_available: self.ydoc_available,
        }
    }
}

/// A second copy of an optional text.
fn clone_text(text: &Option<String>) -> (copy: Option<String>)
    ensures
        copy == *text,
{
    match text {
        Some(t) => Some(t.clone()),
        None => None,
    }
}

} // verus!
