//! Loading the store: what is done next, given how the last step turned out.
//!
//! The store is examined, opened, read and parsed. A file that is missing,
//! not trusted or malformed counts as an empty store, so that it never keeps
//! a command from running; what is wrong is said in a warning.

use vstd::prelude::*;

use crate::connection::ConnectionView;
use crate::location::ConfigError;
use crate::store::{empty_store, ConnectionStore, StoreView};
use crate::text::{bytes_to_text, read_as_text};
use crate::trust::{
    check_config_path, law_private_file_is_trusted, law_trusted_means, trusted, violation,
    FileMeta, IoFailure,
};

verus! {

/// How a step of loading turned out.
#[derive(Debug)]
pub enum LoadEvent {
    /// The path was examined, without following a link.
    Examined(Result<FileMeta, IoFailure>),
    /// The file was opened and examined again. Where files cannot be examined
    /// once they are open, there is no metadata.
    Opened(Result<Option<FileMeta>, IoFailure>),
    /// The file was read.
    Read(Result<String, IoFailure>),
    /// What was read was parsed; the error says what is wrong with it.
    Parsed(Result<ConnectionStore, String>),
}

/// The store that loading came to, and what there is to warn of.
#[derive(Debug)]
pub struct LoadedStore {
    pub store: ConnectionStore,
    pub warning: Option<String>,
}

/// The next step of loading.
#[derive(Debug)]
pub enum LoadAction {
    /// Examine the path, without following a link.
    Examine(Vec<u8>),
    /// Open the file, and examine it again.
    Open,
    /// Read the file.
    Read,
    /// Parse what was read.
    Parse(String),
    /// Loading is done.
    Finish(LoadedStore),
}

/// What a [`LoadedStore`] says.
#[verifier::ext_equal]
pub struct LoadedView {
    pub store: StoreView,
    pub warning: Option<Seq<char>>,
}

/// What a [`LoadAction`] says.
pub enum LoadStep {
    Examine(Seq<u8>),
    Open,
    Read,
    Parse(Seq<char>),
    Finish(LoadedView),
}

impl View for LoadedStore {
    type V = LoadedView;

    open spec fn view(&self) -> LoadedView {
        LoadedView {
            store: self.store@,
            warning: match self.warning {
                Some(w) => Some(w@),
                None => None,
            },
        }
    }
}

impl View for LoadAction {
    type V = LoadStep;

    open spec fn view(&self) -> LoadStep {
        match *self {
            LoadAction::Examine(path) => LoadStep::Examine(path@),
            LoadAction::Open => LoadStep::Open,
            LoadAction::Read => LoadStep::Read,
            LoadAction::Parse(text) => LoadStep::Parse(text@),
            LoadAction::Finish(loaded) => LoadStep::Finish(loaded@),
        }
    }
}

/// Loading ends with the empty store and the given warning.
pub open spec fn give_up(warning: Seq<char>) -> LoadStep {
    LoadStep::Finish(LoadedView { store: empty_store(), warning: Some(warning) })
}

/// The warning that the store's place is unknown.
pub open spec fn lost_warning(error: ConfigError) -> Seq<char> {
    "Warning: could not determine connection store path: "@ + error.words()
}

/// The warning that there is no store.
pub open spec fn missing_warning(path: Seq<u8>, reason: Seq<char>) -> Seq<char> {
    "Warning: missing connection store "@ + read_as_text(path) + ": "@ + reason
}

/// The warning that a store is not trusted, or cannot be read.
pub open spec fn untrusted_warning(path: Seq<u8>, reason: Seq<char>) -> Seq<char> {
    "Warning: ignoring untrusted connection store "@ + read_as_text(path) + ": "@ + reason
}

/// The warning that a store is malformed.
pub open spec fn malformed_warning(path: Seq<u8>, reason: Seq<char>) -> Seq<char> {
    "Warning: ignoring malformed connection store "@ + read_as_text(path) + ": "@ + reason
}

/// After a failed step the store is empty, and the warning tells a file that
/// is missing from one that cannot be used.
pub open spec fn after_failure(path: Seq<u8>, failure: IoFailure) -> LoadStep {
    if failure.not_found {
        give_up(missing_warning(path, failure.message@))
    } else {
        give_up(untrusted_warning(path, failure.message@))
    }
}

/// After the file was examined: go on to `next` if it is trusted.
pub open spec fn after_check(path: Seq<u8>, uid: u32, meta: FileMeta, next: LoadStep) -> LoadStep {
    match violation(meta, uid) {
        Some(found) => give_up(untrusted_warning(path, found.words())),
        None => next,
    }
}

/// The step of loading the store at `path` that follows `event`, for the user
/// `uid`.
pub open spec fn load_step(path: Seq<u8>, uid: u32, event: LoadEvent) -> LoadStep {
    match event {
        LoadEvent::Examined(Ok(meta)) => after_check(path, uid, meta, LoadStep::Open),
        LoadEvent::Examined(Err(failure)) => after_failure(path, failure),
        LoadEvent::Opened(Ok(Some(meta))) => after_check(path, uid, meta, LoadStep::Read),
        LoadEvent::Opened(Ok(None)) => LoadStep::Read,
        LoadEvent::Opened(Err(failure)) => after_failure(path, failure),
        LoadEvent::Read(Ok(text)) => LoadStep::Parse(text@),
        LoadEvent::Read(Err(failure)) => after_failure(path, failure),
        LoadEvent::Parsed(Ok(store)) => LoadStep::Finish(
            LoadedView { store: store@, warning: None },
        ),
        LoadEvent::Parsed(Err(reason)) => give_up(malformed_warning(path, reason@)),
    }
}

/// The empty store, with a warning.
fn finish_empty(warning: String) -> (action: LoadAction)
    ensures
        action@ == give_up(warning@),
{
    LoadAction::Finish(LoadedStore { store: ConnectionStore::default(), warning: Some(warning) })
}

/// A warning about the store at `path`.
fn warn_of(start: &str, path: &[u8], reason: &str) -> (warning: String)
    ensures
        warning@ == start@ + read_as_text(path@) + ": "@ + reason@,
{
    let mut warning = start.to_owned();
    warning.append(bytes_to_text(path).as_str());
    warning.append(": ");
    warning.append(reason);
    warning
}

/// Loading after a failed step.
fn fail(path: &[u8], failure: &IoFailure) -> (action: LoadAction)
    ensures
        action@ == after_failure(path@, *failure),
{
    let start = if failure.not_found {
        "Warning: missing connection store "
    } else {
        "Warning: ignoring untrusted connection store "
    };
    finish_empty(warn_of(start, path, failure.message.as_str()))
}

/// How loading starts, `location` being the path of the store: the path is
/// examined. Where the path is unknown, loading is done.
pub fn load_store(location: Result<Vec<u8>, ConfigError>) -> (action: LoadAction)
    ensures
        action@ == match location {
            Ok(path) => LoadStep::Examine(path@),
            Err(error) => give_up(lost_warning(error)),
        },
        location matches Ok(path) ==> (action matches LoadAction::Examine(p) && p@ == path@),
        location matches Err(error) ==> {
            &&& action is Finish
            &&& action->Finish_0.store.version@.len() == 0
            &&& action->Finish_0.store.projects@ == Map::<Seq<char>, ConnectionView>::empty()
            &&& action->Finish_0.warning is Some
            &&& action->Finish_0.warning->0@
                == "Warning: could not determine connection store path: "@ + error.words()
        },
{
    match location {
        Ok(path) => LoadAction::Examine(path),
        Err(error) => {
            let mut warning = "Warning: could not determine connection store path: ".to_owned();
            warning.append(error.message().as_str());
            finish_empty(warning)
        },
    }
}

/// What comes of opening a store, given the metadata of the open file: it
/// may be read if it is trusted still, since what was examined before may
/// have been replaced.
pub fn read_config_contents(opened: Result<Option<FileMeta>, IoFailure>, uid: u32) -> (checked:
    Result<(), IoFailure>)
    ensures
        checked is Ok <==> (opened matches Ok(meta) && (meta matches Some(m) ==> trusted(m, uid))),
        checked matches Err(failure) ==> match opened {
            Ok(meta) => !failure.not_found && failure.message@ == violation(
                meta->0,
                uid,
            )->0.words(),
            Err(cause) => failure == cause,
        },
{
    match opened {
        Ok(Some(meta)) => check_config_path(Ok(meta), uid),
        Ok(None) => Ok(()),
        Err(cause) => Err(cause),
    }
}

/// The next step of loading the store at `path` for the user `uid`, after
/// `event`.
pub fn load_store_from(path: &[u8], uid: u32, event: LoadEvent) -> (action: LoadAction)
    ensures
        action@ == load_step(path@, uid, event),
        !(action is Examine),
        event matches LoadEvent::Read(Ok(text)) ==> action == LoadAction::Parse(text),
        event matches LoadEvent::Parsed(Ok(store)) ==> action == LoadAction::Finish(
            LoadedStore { store, warning: None },
        ),
{
    match event {
        LoadEvent::Examined(lstat) => match check_config_path(lstat, uid) {
            Ok(()) => LoadAction::Open,
            Err(failure) => fail(path, &failure),
        },
        LoadEvent::Opened(opened) => match read_config_contents(opened, uid) {
            Ok(()) => LoadAction::Read,
            Err(failure) => fail(path, &failure),
        },
        LoadEvent::Read(Ok(text)) => LoadAction::Parse(text),
        LoadEvent::Read(Err(failure)) => fail(path, &failure),
        LoadEvent::Parsed(Ok(store)) => LoadAction::Finish(LoadedStore { store, warning: None }),
        LoadEvent::Parsed(Err(reason)) => finish_empty(
            warn_of("Warning: ignoring malformed connection store ", path, reason.as_str()),
        ),
    }
}

/// What loading the store at `path` comes to, given how each step turns out
/// if it is taken. What parsing makes of a text, `parse` tells; it is handed
/// the text of the step that asks for it.
pub open spec fn load_run(
    path: Seq<u8>,
    uid: u32,
    lstat: Result<FileMeta, IoFailure>,
    opened: Result<Option<FileMeta>, IoFailure>,
    contents: Result<String, IoFailure>,
    parse: spec_fn(Seq<char>) -> Result<ConnectionStore, String>,
) -> LoadedView {
    match load_step(path, uid, LoadEvent::Examined(lstat)) {
        LoadStep::Finish(loaded) => loaded,
        _ => match load_step(path, uid, LoadEvent::Opened(opened)) {
            LoadStep::Finish(loaded) => loaded,
            _ => match load_step(path, uid, LoadEvent::Read(contents)) {
                LoadStep::Finish(loaded) => loaded,
                step => load_step(path, uid, LoadEvent::Parsed(parse(step->Parse_0)))->Finish_0,
            },
        },
    }
}

/// What an action says leaves nothing out: it says which step it is, and the
/// path, the text or the store that goes with it.
pub proof fn law_load_action_says_all(action: LoadAction)
    ensures
        match action {
            LoadAction::Examine(path) => action@ == LoadStep::Examine(path@),
            LoadAction::Open => action@ == LoadStep::Open,
            LoadAction::Read => action@ == LoadStep::Read,
            LoadAction::Parse(text) => action@ == LoadStep::Parse(text@),
            LoadAction::Finish(loaded) => {
                &&& action@ is Finish
                &&& action@->Finish_0.store == loaded.store@
                &&& action@->Finish_0.warning is Some == loaded.warning is Some
                &&& loaded.warning is Some ==> action@->Finish_0.warning->0 == loaded.warning->0@
            },
        },
{
}

/// What was read is what is parsed, all of it and nothing else.
pub proof fn law_what_was_read_is_parsed(path: Seq<u8>, uid: u32, text: String)
    ensures
        load_step(path, uid, LoadEvent::Read(Ok(text))) == LoadStep::Parse(text@),
{
}

/// What was parsed is what is loaded, all of it, and there is nothing to warn
/// of.
pub proof fn law_what_was_parsed_is_loaded(path: Seq<u8>, uid: u32, store: ConnectionStore)
    ensures
        ({
            let step = load_step(path, uid, LoadEvent::Parsed(Ok(store)));
            &&& step is Finish
            &&& step->Finish_0.store.version == store.version@
            &&& step->Finish_0.store.projects == store.projects@
            &&& step->Finish_0.warning is None
        }),
{
}

/// A file is opened, and read once it is open, just if it is a regular file
/// that, where files have owners, is the user's own and that neither the group
/// nor others can write. Where an open file cannot be examined, it is read.
pub proof fn law_only_own_files_are_read(path: Seq<u8>, uid: u32, meta: FileMeta)
    ensures
        ({
            let fine = {
                &&& meta.is_file
                &&& meta.owner matches Some(owner) ==> owner.uid == uid && owner.mode & 0o020 == 0
                    && owner.mode & 0o002 == 0
            };
            &&& load_step(path, uid, LoadEvent::Examined(Ok(meta))) is Open <==> fine
            &&& load_step(path, uid, LoadEvent::Opened(Ok(Some(meta)))) is Read <==> fine
            &&& load_step(path, uid, LoadEvent::Opened(Ok(None))) is Read
        }),
{
    law_trusted_means(meta, uid);
}

/// Whether loading ends with an empty store, and with a warning that names
/// the path; `start` and `reason` are how the warning starts and ends.
pub open spec fn warns(path: Seq<u8>, step: LoadStep, start: Seq<char>, reason: Seq<char>) -> bool {
    &&& step is Finish
    &&& step->Finish_0.store.version.len() == 0
    &&& step->Finish_0.store.projects == Map::<Seq<char>, ConnectionView>::empty()
    &&& step->Finish_0.warning == Some(start + read_as_text(path) + ": "@ + reason)
}

/// A step that fails ends loading with an empty store. The warning tells a
/// file that is missing from one that cannot be used, and repeats what the
/// system or the parser says.
pub proof fn law_failures_are_warned_of(
    path: Seq<u8>,
    uid: u32,
    failure: IoFailure,
    reason: String,
)
    ensures
        ({
            let start = if failure.not_found {
                "Warning: missing connection store "@
            } else {
                "Warning: ignoring untrusted connection store "@
            };
            let examined = load_step(path, uid, LoadEvent::Examined(Err(failure)));
            let opened = load_step(path, uid, LoadEvent::Opened(Err(failure)));
            let read = load_step(path, uid, LoadEvent::Read(Err(failure)));
            let parsed = load_step(path, uid, LoadEvent::Parsed(Err(reason)));
            &&& warns(path, examined, start, failure.message@)
            &&& warns(path, opened, start, failure.message@)
            &&& warns(path, read, start, failure.message@)
            &&& warns(path, parsed, "Warning: ignoring malformed connection store "@, reason@)
        }),
{
}

/// A file that is not trusted ends loading with an empty store, whether it
/// was examined before it was opened or after. The warning says what is wrong
/// with it.
pub proof fn law_untrusted_files_are_warned_of(path: Seq<u8>, uid: u32, meta: FileMeta)
    requires
        !trusted(meta, uid),
    ensures
        ({
            let start = "Warning: ignoring untrusted connection store "@;
            let reason = violation(meta, uid)->0.words();
            &&& warns(path, load_step(path, uid, LoadEvent::Examined(Ok(meta))), start, reason)
            &&& warns(path, load_step(path, uid, LoadEvent::Opened(Ok(Some(meta)))), start, reason)
        }),
{
}

/// Each step of loading leads to the next one or to the end, and parsing
/// leads to the end.
pub proof fn law_loading_advances(path: Seq<u8>, uid: u32, event: LoadEvent)
    ensures
        load_step(path, uid, event) is Finish || match event {
            LoadEvent::Examined(_) => load_step(path, uid, event) is Open,
            LoadEvent::Opened(_) => load_step(path, uid, event) is Read,
            LoadEvent::Read(_) => load_step(path, uid, event) is Parse,
            LoadEvent::Parsed(_) => false,
        },
{
}

/// A store is taken over as it was parsed just if its file was trusted, both
/// before and after it was opened, and could be read and parsed. Otherwise
/// the store is empty.
pub proof fn law_loaded_store_was_trusted(
    path: Seq<u8>,
    uid: u32,
    lstat: Result<FileMeta, IoFailure>,
    opened: Result<Option<FileMeta>, IoFailure>,
    contents: Result<String, IoFailure>,
    parse: spec_fn(Seq<char>) -> Result<ConnectionStore, String>,
)
    ensures
        ({
            let loaded = load_run(path, uid, lstat, opened, contents, parse);
            let fine = {
                &&& lstat matches Ok(meta) && trusted(meta, uid)
                &&& opened matches Ok(again) && (again matches Some(meta) ==> trusted(meta, uid))
                &&& contents is Ok
                &&& parse(contents->Ok_0@) is Ok
            };
            &&& fine ==> loaded.store == parse(contents->Ok_0@)->Ok_0@ && loaded.warning is None
            &&& !fine ==> loaded.store == empty_store()
        }),
{
}

/// A store whose file is not trusted is empty, and the warning says why.
pub proof fn law_untrusted_store_is_empty(
    path: Seq<u8>,
    uid: u32,
    meta: FileMeta,
    opened: Result<Option<FileMeta>, IoFailure>,
    contents: Result<String, IoFailure>,
    parse: spec_fn(Seq<char>) -> Result<ConnectionStore, String>,
)
    requires
        !trusted(meta, uid),
    ensures
        load_run(path, uid, Ok(meta), opened, contents, parse) == (LoadedView {
            store: empty_store(),
            warning: Some(untrusted_warning(path, violation(meta, uid)->0.words())),
        }),
{
}

/// What the user keeps in a private file of their own is loaded as it is
/// parsed, without a warning.
pub proof fn law_private_store_is_loaded(
    path: Seq<u8>,
    uid: u32,
    meta: FileMeta,
    contents: String,
    parse: spec_fn(Seq<char>) -> Result<ConnectionStore, String>,
)
    requires
        meta.is_file,
        meta.owner matches Some(owner) ==> owner.uid == uid && owner.mode & 0o777 == 0o600,
        parse(contents@) is Ok,
    ensures
        load_run(path, uid, Ok(meta), Ok(Some(meta)), Ok(contents), parse) == (LoadedView {
            store: parse(contents@)->Ok_0@,
            warning: None,
        }),
{
    law_private_file_is_trusted(meta, uid);
}

/// A missing store is empty, and is reported.
pub proof fn law_missing_store_is_reported(
    path: Seq<u8>,
    uid: u32,
    failure: IoFailure,
    opened: Result<Option<FileMeta>, IoFailure>,
    contents: Result<String, IoFailure>,
    parse: spec_fn(Seq<char>) -> Result<ConnectionStore, String>,
)
    requires
        failure.not_found,
    ensures
        load_run(path, uid, Err(failure), opened, contents, parse) == (LoadedView {
            store: empty_store(),
            warning: Some(missing_warning(path, failure.message@)),
        }),
{
}

/// Loading goes without a warning just if the store was taken over: its file
/// was trusted, both before and after it was opened, and could be read and
/// parsed.
pub proof fn law_silence_means_loaded(
    path: Seq<u8>,
    uid: u32,
    lstat: Result<FileMeta, IoFailure>,
    opened: Result<Option<FileMeta>, IoFailure>,
    contents: Result<String, IoFailure>,
    parse: spec_fn(Seq<char>) -> Result<ConnectionStore, String>,
)
    ensures
        load_run(path, uid, lstat, opened, contents, parse).warning is None <==> {
            &&& lstat matches Ok(meta) && trusted(meta, uid)
            &&& opened matches Ok(again) && (again matches Some(meta) ==> trusted(meta, uid))
            &&& contents is Ok
            &&& parse(contents->Ok_0@) is Ok
        },
{
}

} // verus!
