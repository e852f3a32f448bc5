//! Saving the store: what is done next, given how the last step turned out.
//!
//! A file beside the store's place is made private before the store is
//! written to it, and is then moved there, so that the store is never seen
//! half written or by others. What would not be trusted when read back is not
//! written over.

use vstd::prelude::*;
use vstd::utf8::encode_utf8;

use crate::load::{law_private_store_is_loaded, load_run, LoadedView};
use crate::location::{
    bytes_view, law_store_lies_in_its_dir, lemma_store_file_name, store_path_of, unix_path_of,
    STORE_FILE_NAME,
};
use crate::path::{
    components, copy_bytes, join, joined, law_child_is_inside, law_parent_exists,
    law_parent_means, parent, parent_of, DOT, SEPARATOR,
};
use crate::store::{ConnectionStore, StoreView};
use crate::text::{bytes_to_text, read_as_text};
use crate::trust::{
    check_save_target, law_private_file_is_trusted, law_trusted_means, refusal, trusted,
    violation, FileMeta,
};

verus! {

/// The mode of the store's directory: for its owner alone.
pub const STORE_DIR_MODE: u32 = 0o700;

/// The mode of the store's file: for its owner alone to read and write.
pub const STORE_FILE_MODE: u32 = 0o600;

/// Where the store is saved. The parts are told apart by the system, in its
/// own syntax; [`StorePlace::unix`] does so in that of Unix.
#[derive(Debug)]
pub struct StorePlace {
    /// The store's file.
    pub path: Vec<u8>,
    /// The directory that it lies in, if the path has one.
    pub dir: Option<Vec<u8>>,
    /// The file called [`temp_name`] in that directory. Without a directory
    /// it means nothing.
    pub temp: Vec<u8>,
}

/// What a [`StorePlace`] says.
#[verifier::ext_equal]
pub struct PlaceView {
    pub path: Seq<u8>,
    pub dir: Option<Seq<u8>>,
    pub temp: Seq<u8>,
}

/// Whether a step was done.
#[derive(Clone, Copy, Debug, PartialEq, Eq, Structural)]
pub enum Outcome {
    Done,
    Failed,
}

/// How a step of saving turned out.
#[derive(Debug)]
pub enum SaveEvent {
    /// The store's place was examined, without following a link; there is
    /// metadata if something stands there.
    Examined(Option<FileMeta>),
    /// The store's directory was created, or was there.
    CreatedDir(Outcome),
    /// The directory's mode was set, or could not be.
    RestrictedDir(Outcome),
    /// The store was serialized, or could not be.
    Serialized(Option<String>),
    /// The file beside the store's place was made, or emptied if it was
    /// there, for this text.
    CreatedTemp(Outcome, String),
    /// The file's mode was set, for this text.
    RestrictedTemp(Outcome, String),
    /// The text was written to the file.
    WroteTemp(Outcome),
    /// What was written was moved to the store's place.
    Replaced(Outcome),
}

/// The next step of saving.
#[derive(Debug)]
pub enum SaveAction {
    /// Create the directory, and those it lies in.
    CreateDir(Vec<u8>),
    /// Set the directory's mode, if possible.
    RestrictDir(Vec<u8>, u32),
    /// Serialize the store.
    Serialize,
    /// Create the file with the mode, or empty it if it is there. The text is
    /// for later, and comes back with the outcome.
    CreateTemp(Vec<u8>, u32, String),
    /// Set the file's mode. The text is for later, and comes back with the
    /// outcome.
    RestrictTemp(Vec<u8>, u32, String),
    /// Write the text to the file, which is there and empty.
    WriteTemp(Vec<u8>, String),
    /// Move the file to the path.
    Replace(Vec<u8>, Vec<u8>),
    /// Saving is done.
    Finish,
}

/// Why a store was not saved.
#[derive(Debug)]
pub enum SaveError {
    /// For this reason.
    Plain(String),
    /// Because this failed; the system knows why.
    Context(String),
    /// The system knows why.
    Cause,
}

/// What a [`SaveAction`] says.
pub enum SaveStep {
    CreateDir(Seq<u8>),
    RestrictDir(Seq<u8>, u32),
    Serialize,
    CreateTemp(Seq<u8>, u32, Seq<char>),
    RestrictTemp(Seq<u8>, u32, Seq<char>),
    WriteTemp(Seq<u8>, Seq<char>),
    Replace(Seq<u8>, Seq<u8>),
    Finish,
}

/// What a [`SaveError`] says.
pub enum SaveFault {
    Plain(Seq<char>),
    Context(Seq<char>),
    Cause,
}

impl View for StorePlace {
    type V = PlaceView;

    open spec fn view(&self) -> PlaceView {
        PlaceView { path: self.path@, dir: bytes_view(self.dir), temp: self.temp@ }
    }
}

impl View for SaveAction {
    type V = SaveStep;

    open spec fn view(&self) -> SaveStep {
        match *self {
            SaveAction::CreateDir(dir) => SaveStep::CreateDir(dir@),
            SaveAction::RestrictDir(dir, mode) => SaveStep::RestrictDir(dir@, mode),
            SaveAction::Serialize => SaveStep::Serialize,
            SaveAction::CreateTemp(temp, mode, text) => SaveStep::CreateTemp(temp@, mode, text@),
            SaveAction::RestrictTemp(temp, mode, text) => SaveStep::RestrictTemp(
                temp@,
                mode,
                text@,
            ),
            SaveAction::WriteTemp(temp, text) => SaveStep::WriteTemp(temp@, text@),
            SaveAction::Replace(temp, path) => SaveStep::Replace(temp@, path@),
            SaveAction::Finish => SaveStep::Finish,
        }
    }
}

impl View for SaveError {
    type V = SaveFault;

    open spec fn view(&self) -> SaveFault {
        match *self {
            SaveError::Plain(message) => SaveFault::Plain(message@),
            SaveError::Context(message) => SaveFault::Context(message@),
            SaveError::Cause => SaveFault::Cause,
        }
    }
}

/// The name of the file beside the store to which it is written first.
pub open spec fn temp_name_of() -> Seq<char> {
    STORE_FILE_NAME@ + ".tmp"@
}

/// Where `path` is, in Unix syntax.
pub open spec fn unix_place(path: Seq<u8>) -> PlaceView {
    PlaceView {
        path,
        dir: parent_of(path),
        temp: match parent_of(path) {
            Some(dir) => joined(dir, encode_utf8(temp_name_of())),
            None => Seq::empty(),
        },
    }
}

/// The name of the file beside the store to which it is written first.
pub fn temp_name() -> (name: String)
    ensures
        name@ == temp_name_of(),
{
    let mut name = STORE_FILE_NAME.to_owned();
    name.append(".tmp");
    name
}

impl StorePlace {
    /// Where `path` is, in Unix syntax.
    pub fn unix(path: Vec<u8>) -> (place: Self)
        ensures
            place@ == unix_place(path@),
    {
        let dir = parent(path.as_slice());
        let temp = match &dir {
            Some(dir) => join(dir.as_slice(), temp_name().as_str().as_bytes()),
            None => Vec::new(),
        };
        StorePlace { path, dir, temp }
    }
}

/// The step of saving to `place`, in the directory `dir`, that follows
/// `event`, where writing there is allowed.
pub open spec fn step_in(place: PlaceView, dir: Seq<u8>, event: SaveEvent) -> Result<
    SaveStep,
    SaveFault,
> {
    match event {
        SaveEvent::Examined(_) => Ok(SaveStep::CreateDir(dir)),
        SaveEvent::CreatedDir(Outcome::Done) => Ok(SaveStep::RestrictDir(dir, STORE_DIR_MODE)),
        SaveEvent::CreatedDir(Outcome::Failed) => Err(
            SaveFault::Context("Failed to create nb config directory"@),
        ),
        SaveEvent::RestrictedDir(_) => Ok(SaveStep::Serialize),
        SaveEvent::Serialized(Some(text)) => Ok(
            SaveStep::CreateTemp(place.temp, STORE_FILE_MODE, text@),
        ),
        SaveEvent::Serialized(None) => Err(
            SaveFault::Context("Failed to serialize connection store"@),
        ),
        SaveEvent::CreatedTemp(Outcome::Done, text) => Ok(
            SaveStep::RestrictTemp(place.temp, STORE_FILE_MODE, text@),
        ),
        SaveEvent::CreatedTemp(Outcome::Failed, _) => Err(
            SaveFault::Context("Failed to write "@ + read_as_text(place.temp)),
        ),
        SaveEvent::RestrictedTemp(Outcome::Done, text) => Ok(
            SaveStep::WriteTemp(place.temp, text@),
        ),
        SaveEvent::RestrictedTemp(Outcome::Failed, _) => Err(SaveFault::Cause),
        SaveEvent::WroteTemp(Outcome::Done) => Ok(SaveStep::Replace(place.temp, place.path)),
        SaveEvent::WroteTemp(Outcome::Failed) => Err(
            SaveFault::Context("Failed to write "@ + read_as_text(place.temp)),
        ),
        SaveEvent::Replaced(Outcome::Done) => Ok(SaveStep::Finish),
        SaveEvent::Replaced(Outcome::Failed) => Err(
            SaveFault::Context("Failed to move store into place at "@ + read_as_text(place.path)),
        ),
    }
}

/// The step of saving to `place` that follows `event`, for the user `uid`:
/// the place must be free or hold a trusted file, and it must lie in a
/// directory.
pub open spec fn save_step(place: PlaceView, uid: u32, event: SaveEvent) -> Result<
    SaveStep,
    SaveFault,
> {
    if event matches SaveEvent::Examined(Some(meta)) && !trusted(meta, uid) {
        Err(SaveFault::Plain(refusal(place.path, violation(event->Examined_0->0, uid)->0)))
    } else {
        match place.dir {
            Some(dir) => step_in(place, dir, event),
            None => Err(SaveFault::Plain("Connection store path has no parent"@)),
        }
    }
}

/// A message about a path.
fn say_of(start: &str, path: &[u8]) -> (message: String)
    ensures
        message@ == start@ + read_as_text(path@),
{
    let mut message = start.to_owned();
    message.append(bytes_to_text(path).as_str());
    message
}

/// The next step of saving the store to `place` for the user `uid`, after
/// `event`. Saving starts by examining the path of `place`.
pub fn save_store_to(place: &StorePlace, uid: u32, event: SaveEvent) -> (next: Result<
    SaveAction,
    SaveError,
>)
    ensures
        match next {
            Ok(action) => save_step(place@, uid, event) == Ok::<SaveStep, SaveFault>(action@),
            Err(error) => save_step(place@, uid, event) == Err::<SaveStep, SaveFault>(error@),
        },
{
    let path = place.path.as_slice();
    let temp = place.temp.as_slice();
    if let SaveEvent::Examined(target) = &event {
        if let Err(message) = check_save_target(path, *target, uid) {
            return Err(SaveError::Plain(message));
        }
    }
    let dir = match &place.dir {
        Some(dir) => copy_bytes(dir.as_slice()),
        None => {
            return Err(SaveError::Plain("Connection store path has no parent".to_owned()));
        },
    };
    match event {
        SaveEvent::Examined(_) => Ok(SaveAction::CreateDir(dir)),
        SaveEvent::CreatedDir(Outcome::Done) => Ok(SaveAction::RestrictDir(dir, STORE_DIR_MODE)),
        SaveEvent::CreatedDir(Outcome::Failed) => Err(
            SaveError::Context("Failed to create nb config directory".to_owned()),
        ),
        SaveEvent::RestrictedDir(_) => Ok(SaveAction::Serialize),
        SaveEvent::Serialized(Some(text)) => Ok(
            SaveAction::CreateTemp(copy_bytes(temp), STORE_FILE_MODE, text),
        ),
        SaveEvent::Serialized(None) => Err(
            SaveError::Context("Failed to serialize connection store".to_owned()),
        ),
        SaveEvent::CreatedTemp(Outcome::Done, text) => Ok(
            SaveAction::RestrictTemp(copy_bytes(temp), STORE_FILE_MODE, text),
        ),
        SaveEvent::CreatedTemp(Outcome::Failed, _) => Err(
            SaveError::Context(say_of("Failed to write ", temp)),
        ),
        SaveEvent::RestrictedTemp(Outcome::Done, text) => Ok(
            SaveAction::WriteTemp(copy_bytes(temp), text),
        ),
        SaveEvent::RestrictedTemp(Outcome::Failed, _) => Err(SaveError::Cause),
        SaveEvent::WroteTemp(Outcome::Done) => Ok(
            SaveAction::Replace(copy_bytes(temp), copy_bytes(path)),
        ),
        SaveEvent::WroteTemp(Outcome::Failed) => Err(
            SaveError::Context(say_of("Failed to write ", temp)),
        ),
        SaveEvent::Replaced(Outcome::Done) => Ok(SaveAction::Finish),
        SaveEvent::Replaced(Outcome::Failed) => Err(
            SaveError::Context(say_of("Failed to move store into place at ", path)),
        ),
    }
}

/// What an action says leaves nothing out: it says which step it is, and the
/// paths, the mode and the text that go with it, each in its place.
pub proof fn law_save_action_says_all(action: SaveAction)
    ensures
        match action {
            SaveAction::CreateDir(dir) => action@ == SaveStep::CreateDir(dir@),
            SaveAction::RestrictDir(dir, mode) => action@ == SaveStep::RestrictDir(dir@, mode),
            SaveAction::Serialize => action@ == SaveStep::Serialize,
            SaveAction::CreateTemp(temp, mode, text) => action@ == SaveStep::CreateTemp(
                temp@,
                mode,
                text@,
            ),
            SaveAction::RestrictTemp(temp, mode, text) => action@ == SaveStep::RestrictTemp(
                temp@,
                mode,
                text@,
            ),
            SaveAction::WriteTemp(temp, text) => action@ == SaveStep::WriteTemp(temp@, text@),
            SaveAction::Replace(temp, path) => action@ == SaveStep::Replace(temp@, path@),
            SaveAction::Finish => action@ == SaveStep::Finish,
        },
{
}

/// What an error says leaves nothing out.
pub proof fn law_save_error_says_all(error: SaveError)
    ensures
        match error {
            SaveError::Plain(message) => error@ == SaveFault::Plain(message@),
            SaveError::Context(message) => error@ == SaveFault::Context(message@),
            SaveError::Cause => error@ == SaveFault::Cause,
        },
{
}

/// What a place says leaves nothing out.
pub proof fn law_store_place_says_all(place: StorePlace)
    ensures
        place@.path == place.path@,
        place@.dir is Some == place.dir is Some,
        place.dir matches Some(dir) ==> place@.dir == Some(dir@),
        place@.temp == place.temp@,
{
}

/// In Unix syntax, the directory of a path is its shortest leading part with
/// all its components but the last, and the file that is written first lies
/// in that same directory, as `connections.json.tmp`. There is a directory
/// just if the path has a component that is not the root directory.
pub proof fn law_store_and_temp_share_a_directory(path: Seq<u8>)
    ensures
        ({
            let place = unix_place(path);
            let all = components(path);
            &&& place.path == path
            &&& place.dir is Some <==> all.len() > 0 && all.last() != seq![SEPARATOR]
            &&& place.dir matches Some(dir) ==> {
                &&& dir.is_prefix_of(path)
                &&& components(dir) == all.drop_last()
                &&& forall|n: int|
                    0 <= n < dir.len() ==> components(#[trigger] path.take(n)) != components(dir)
                &&& components(place.temp) == components(dir).push(
                    encode_utf8("connections.json"@ + ".tmp"@),
                )
                &&& place.temp == joined(dir, encode_utf8("connections.json"@ + ".tmp"@))
            }
        }),
{
    law_parent_means(path);
    lemma_temp_name();
    if let Some(dir) = parent_of(path) {
        law_child_is_inside(dir, encode_utf8(temp_name_of()));
    }
}

/// Nothing is written over a file that is not the user's own regular file, or
/// that the group or others can write: saving ends there, and the error names
/// the path and says what is wrong. Where nothing stands, or a file that is
/// fine, saving starts by creating the directory.
pub proof fn law_only_own_files_are_written_over(
    place: PlaceView,
    uid: u32,
    dir: Seq<u8>,
    meta: FileMeta,
)
    requires
        place.dir == Some(dir),
    ensures
        ({
            let fine = {
                &&& meta.is_file
                &&& meta.owner matches Some(owner) ==> owner.uid == uid && owner.mode & 0o020 == 0
                    && owner.mode & 0o002 == 0
            };
            let start = Ok::<SaveStep, SaveFault>(SaveStep::CreateDir(dir));
            let next = save_step(place, uid, SaveEvent::Examined(Some(meta)));
            &&& save_step(place, uid, SaveEvent::Examined(None)) == start
            &&& fine ==> next == start
            &&& !fine ==> next == Err::<SaveStep, SaveFault>(
                SaveFault::Plain(
                    "refusing to write connection store to "@ + read_as_text(place.path) + ": "@
                        + violation(meta, uid)->0.words(),
                ),
            )
        }),
{
    law_trusted_means(meta, uid);
}

/// Each step that was done leads to the next: the directory is created and
/// made private, whether or not that can be done the store is serialized, and
/// the whole text goes through a private file beside the store, which is then
/// moved into its place.
pub proof fn law_each_step_leads_to_the_next(
    place: PlaceView,
    uid: u32,
    dir: Seq<u8>,
    outcome: Outcome,
    text: String,
)
    requires
        place.dir == Some(dir),
    ensures
        save_step(place, uid, SaveEvent::CreatedDir(Outcome::Done)) == Ok::<SaveStep, SaveFault>(
            SaveStep::RestrictDir(dir, 0o700),
        ),
        save_step(place, uid, SaveEvent::RestrictedDir(outcome)) == Ok::<SaveStep, SaveFault>(
            SaveStep::Serialize,
        ),
        save_step(place, uid, SaveEvent::Serialized(Some(text))) == Ok::<SaveStep, SaveFault>(
            SaveStep::CreateTemp(place.temp, 0o600, text@),
        ),
        save_step(place, uid, SaveEvent::CreatedTemp(Outcome::Done, text)) == Ok::<
            SaveStep,
            SaveFault,
        >(SaveStep::RestrictTemp(place.temp, 0o600, text@)),
        save_step(place, uid, SaveEvent::RestrictedTemp(Outcome::Done, text)) == Ok::<
            SaveStep,
            SaveFault,
        >(SaveStep::WriteTemp(place.temp, text@)),
        save_step(place, uid, SaveEvent::WroteTemp(Outcome::Done)) == Ok::<SaveStep, SaveFault>(
            SaveStep::Replace(place.temp, place.path),
        ),
        save_step(place, uid, SaveEvent::Replaced(Outcome::Done)) == Ok::<SaveStep, SaveFault>(
            SaveStep::Finish,
        ),
{
}

/// A step that failed ends saving, except that the directory's mode need not
/// be set, and the error says which it was. Without a directory nothing is
/// done at all.
pub proof fn law_failed_step_ends_saving(
    place: PlaceView,
    uid: u32,
    text: String,
    event: SaveEvent,
)
    ensures
        place.dir is Some ==> {
            &&& save_step(place, uid, SaveEvent::CreatedDir(Outcome::Failed)) == Err::<
                SaveStep,
                SaveFault,
            >(SaveFault::Context("Failed to create nb config directory"@))
            &&& save_step(place, uid, SaveEvent::Serialized(None)) == Err::<SaveStep, SaveFault>(
                SaveFault::Context("Failed to serialize connection store"@),
            )
            &&& save_step(place, uid, SaveEvent::CreatedTemp(Outcome::Failed, text)) == Err::<
                SaveStep,
                SaveFault,
            >(SaveFault::Context("Failed to write "@ + read_as_text(place.temp)))
            &&& save_step(place, uid, SaveEvent::RestrictedTemp(Outcome::Failed, text)) == Err::<
                SaveStep,
                SaveFault,
            >(SaveFault::Cause)
            &&& save_step(place, uid, SaveEvent::WroteTemp(Outcome::Failed)) == Err::<
                SaveStep,
                SaveFault,
            >(SaveFault::Context("Failed to write "@ + read_as_text(place.temp)))
            &&& save_step(place, uid, SaveEvent::Replaced(Outcome::Failed)) == Err::<
                SaveStep,
                SaveFault,
            >(
                SaveFault::Context(
                    "Failed to move store into place at "@ + read_as_text(place.path),
                ),
            )
        },
        place.dir is None && (event matches SaveEvent::Examined(Some(meta)) ==> trusted(meta, uid))
            ==> save_step(place, uid, event) == Err::<SaveStep, SaveFault>(
            SaveFault::Plain("Connection store path has no parent"@),
        ),
{
}

/// How each step of saving turns out if it is taken.
pub struct SaveWorld {
    pub target: Option<FileMeta>,
    pub created_dir: Outcome,
    pub restricted_dir: Outcome,
    pub serialized: Option<String>,
    pub created_temp: Outcome,
    pub restricted_temp: Outcome,
    pub wrote_temp: Outcome,
    pub replaced: Outcome,
}

impl SaveWorld {
    /// How the given step turns out.
    pub open spec fn reply(self, step: SaveStep) -> SaveEvent {
        match step {
            SaveStep::CreateDir(_) => SaveEvent::CreatedDir(self.created_dir),
            SaveStep::RestrictDir(_, _) => SaveEvent::RestrictedDir(self.restricted_dir),
            SaveStep::Serialize => SaveEvent::Serialized(self.serialized),
            SaveStep::CreateTemp(_, _, _) => SaveEvent::CreatedTemp(
                self.created_temp,
                self.serialized->0,
            ),
            SaveStep::RestrictTemp(_, _, _) => SaveEvent::RestrictedTemp(
                self.restricted_temp,
                self.serialized->0,
            ),
            SaveStep::WriteTemp(_, _) => SaveEvent::WroteTemp(self.wrote_temp),
            SaveStep::Replace(_, _) => SaveEvent::Replaced(self.replaced),
            SaveStep::Finish => SaveEvent::Replaced(self.replaced),
        }
    }

    /// Whether every step is done that must be; the directory's mode need
    /// not be set.
    pub open spec fn all_done(self) -> bool {
        &&& self.created_dir == Outcome::Done
        &&& self.serialized is Some
        &&& self.created_temp == Outcome::Done
        &&& self.restricted_temp == Outcome::Done
        &&& self.wrote_temp == Outcome::Done
        &&& self.replaced == Outcome::Done
    }
}

/// The text that a save puts on disk.
pub open spec fn text_of(world: SaveWorld) -> Seq<char> {
    match world.serialized {
        Some(text) => text@,
        None => Seq::empty(),
    }
}

/// How many steps may still follow an event.
pub open spec fn steps_left(event: SaveEvent) -> nat {
    match event {
        SaveEvent::Examined(_) => 7,
        SaveEvent::CreatedDir(_) => 6,
        SaveEvent::RestrictedDir(_) => 5,
        SaveEvent::Serialized(_) => 4,
        SaveEvent::CreatedTemp(_, _) => 3,
        SaveEvent::RestrictedTemp(_, _) => 2,
        SaveEvent::WroteTemp(_) => 1,
        SaveEvent::Replaced(_) => 0,
    }
}

/// The steps that are taken after `event` in saving to `place`, and what
/// saving comes to.
pub open spec fn save_run(place: PlaceView, uid: u32, world: SaveWorld, event: SaveEvent) -> (
    Seq<SaveStep>,
    Result<(), SaveFault>,
)
    decreases steps_left(event),
{
    match save_step(place, uid, event) {
        Err(fault) => (Seq::empty(), Err(fault)),
        Ok(SaveStep::Finish) => (Seq::empty(), Ok(())),
        Ok(step) => {
            let rest = save_run(place, uid, world, world.reply(step));
            (seq![step] + rest.0, rest.1)
        },
    }
}

/// All steps of saving `text` to `place`, in order.
pub open spec fn save_plan(place: PlaceView, text: Seq<char>) -> Seq<SaveStep> {
    seq![
        SaveStep::CreateDir(place.dir->0),
        SaveStep::RestrictDir(place.dir->0, STORE_DIR_MODE),
        SaveStep::Serialize,
        SaveStep::CreateTemp(place.temp, STORE_FILE_MODE, text),
        SaveStep::RestrictTemp(place.temp, STORE_FILE_MODE, text),
        SaveStep::WriteTemp(place.temp, text),
        SaveStep::Replace(place.temp, place.path),
    ]
}

/// A file that is not trusted is not written over: no step is taken, and the
/// error says why.
pub proof fn law_untrusted_target_is_left_alone(
    place: PlaceView,
    uid: u32,
    world: SaveWorld,
    meta: FileMeta,
)
    requires
        !trusted(meta, uid),
    ensures
        save_run(place, uid, world, SaveEvent::Examined(Some(meta))) == (
            Seq::<SaveStep>::empty(),
            Err::<(), SaveFault>(SaveFault::Plain(refusal(place.path, violation(meta, uid)->0))),
        ),
{
}

/// Saving takes the planned steps in order, as far as they succeed. The
/// whole plan is carried out just if the place may be written, lies in a
/// directory and no step fails that must not.
pub proof fn law_saving_follows_the_plan(place: PlaceView, uid: u32, world: SaveWorld)
    ensures
        ({
            let run = save_run(place, uid, world, SaveEvent::Examined(world.target));
            let text = text_of(world);
            let allowed = {
                &&& world.target matches Some(meta) ==> trusted(meta, uid)
                &&& place.dir is Some
            };
            &&& allowed ==> run.0.is_prefix_of(save_plan(place, text))
            &&& !allowed ==> run.0 == Seq::<SaveStep>::empty()
            &&& run.1 is Ok <==> allowed && world.all_done()
            &&& run.1 is Ok ==> run.0 == save_plan(place, text)
        }),
{
    reveal_with_fuel(save_run, 9);
    let text = text_of(world);
    if place.dir is Some {
        let plan = save_plan(place, text);
        let run = save_run(place, uid, world, SaveEvent::Examined(world.target));
        assert(run.0 =~= plan.take(run.0.len() as int));
    }
}

/// Whether the file that is written first is another one than the store, by
/// their components in Unix syntax.
pub open spec fn has_own_temp(place: PlaceView) -> bool {
    place.dir is Some ==> components(place.temp) != components(place.path)
}

/// In Unix syntax, the file that is written first lies beside the store and
/// is not the store itself, unless the store was given that very name.
pub proof fn law_store_is_not_written_in_place(path: Seq<u8>)
    requires
        components(path).len() > 0,
        components(path).last() != seq![SEPARATOR],
        components(path).last() != encode_utf8(temp_name_of()),
    ensures
        unix_place(path).dir is Some,
        components(unix_place(path).temp) == components(path).drop_last().push(
            encode_utf8(temp_name_of()),
        ),
        has_own_temp(unix_place(path)),
{
    lemma_temp_name();
    law_parent_exists(path);
    law_child_is_inside(parent_of(path)->0, encode_utf8(temp_name_of()));
}

/// The name of the file that is written first is an ordinary one.
proof fn lemma_temp_name()
    ensures
        encode_utf8(temp_name_of()).len() == 20,
        encode_utf8(temp_name_of()) != seq![DOT],
        forall|i: int|
            0 <= i < encode_utf8(temp_name_of()).len() ==> encode_utf8(temp_name_of())[i]
                != SEPARATOR,
{
    reveal_strlit("connections.json");
    reveal_strlit(".tmp");
    vstd::utf8::is_ascii_chars_encode_utf8(temp_name_of());
}

/// The store in its usual place, in Unix syntax, is not written in place.
pub proof fn law_usual_store_is_not_written_in_place(
    config_home: Option<Seq<u8>>,
    config_dir: Option<Seq<u8>>,
)
    requires
        store_path_of(config_home, config_dir) is Some,
    ensures
        ({
            let place = unix_place(unix_path_of(store_path_of(config_home, config_dir)->0));
            &&& place.dir is Some
            &&& has_own_temp(place)
        }),
{
    let path = unix_path_of(store_path_of(config_home, config_dir)->0);
    law_store_lies_in_its_dir(config_home, config_dir);
    lemma_store_file_name();
    lemma_temp_name();
    law_store_is_not_written_in_place(path);
}

/// A file as saving sees it: its mode, and what is in it.
pub struct SavedFile {
    pub mode: u32,
    pub text: Seq<char>,
}

/// The two files that saving works on: the one beside the store's place, and
/// the store itself.
pub struct Disk {
    pub temp: Option<SavedFile>,
    pub store: Option<SavedFile>,
}

impl Disk {
    /// The files after a step was done.
    pub open spec fn after(self, step: SaveStep) -> Disk {
        match step {
            SaveStep::CreateTemp(_, mode, _) => Disk {
                temp: match self.temp {
                    Some(file) => Some(SavedFile { text: Seq::empty(), ..file }),
                    None => Some(SavedFile { mode, text: Seq::empty() }),
                },
                ..self
            },
            SaveStep::RestrictTemp(_, mode, _) => Disk {
                temp: match self.temp {
                    Some(file) => Some(SavedFile { mode, ..file }),
                    None => None,
                },
                ..self
            },
            SaveStep::WriteTemp(_, text) => Disk {
                temp: match self.temp {
                    Some(file) => Some(SavedFile { text, ..file }),
                    None => None,
                },
                ..self
            },
            SaveStep::Replace(_, _) => Disk { temp: None, store: self.temp },
            _ => self,
        }
    }

    /// The files after some steps were done, one after the other.
    pub open spec fn after_all(self, steps: Seq<SaveStep>) -> Disk
        decreases steps.len(),
    {
        if steps.len() == 0 {
            self
        } else {
            self.after_all(steps.drop_last()).after(steps.last())
        }
    }
}

/// What the planned steps do, one by one.
proof fn lemma_plan_on_disk(place: PlaceView, text: Seq<char>, disk: Disk, n: int)
    requires
        0 <= n <= save_plan(place, text).len(),
    ensures
        ({
            let d = disk.after_all(save_plan(place, text).take(n));
            &&& n < 4 ==> d == disk
            &&& 4 <= n < 7 ==> {
                &&& d.store == disk.store
                &&& d.temp is Some
                &&& n < 6 ==> d.temp->0.text == Seq::<char>::empty()
                &&& n >= 5 ==> d.temp->0.mode == STORE_FILE_MODE
                &&& n == 6 ==> d.temp->0.text == text
            }
            &&& n == 7 ==> d == (Disk {
                temp: None,
                store: Some(SavedFile { mode: STORE_FILE_MODE, text }),
            })
        }),
    decreases n,
{
    let plan = save_plan(place, text);
    if n > 0 {
        lemma_plan_on_disk(place, text, disk, n - 1);
        assert(plan.take(n).drop_last() =~= plan.take(n - 1));
        assert(plan.take(n).last() == plan[n - 1]);
    }
}

/// The steps of a save are the first ones of the plan.
proof fn lemma_run_on_disk(place: PlaceView, uid: u32, world: SaveWorld, disk: Disk, n: int)
    requires
        0 <= n <= save_run(place, uid, world, SaveEvent::Examined(world.target)).0.len(),
    ensures
        ({
            let run = save_run(place, uid, world, SaveEvent::Examined(world.target)).0;
            let plan = save_plan(place, text_of(world));
            disk.after_all(run.take(n)) == disk.after_all(plan.take(n)) && (n > 0 ==> n
                <= plan.len())
        }),
{
    law_saving_follows_the_plan(place, uid, world);
    let run = save_run(place, uid, world, SaveEvent::Examined(world.target)).0;
    let plan = save_plan(place, text_of(world));
    assert(run.take(n) =~= plan.take(n));
}

/// The store's text is private from the first moment: whichever steps were
/// done, what the save has put beside the store's place either is empty or
/// can be read and written by its owner alone. That holds whatever files
/// were there before.
pub proof fn law_text_is_written_privately(
    place: PlaceView,
    uid: u32,
    world: SaveWorld,
    disk: Disk,
    n: int,
)
    requires
        has_own_temp(place),
        0 <= n <= save_run(place, uid, world, SaveEvent::Examined(world.target)).0.len(),
    ensures
        ({
            let run = save_run(place, uid, world, SaveEvent::Examined(world.target)).0;
            let now = disk.after_all(run.take(n));
            now.temp == disk.temp || (now.temp matches Some(file) ==> file.text.len() == 0
                || file.mode & 0o077 == 0)
        }),
{
    lemma_run_on_disk(place, uid, world, disk, n);
    lemma_plan_on_disk(place, text_of(world), disk, n);
    assert(0o600u32 & 0o077 == 0) by (bit_vector);
}

/// No step writes the text to a file whose mode was not set before.
pub proof fn law_mode_is_set_before_writing(place: PlaceView, uid: u32, world: SaveWorld, i: int)
    requires
        0 <= i < save_run(place, uid, world, SaveEvent::Examined(world.target)).0.len(),
        save_run(place, uid, world, SaveEvent::Examined(world.target)).0[i] is WriteTemp,
    ensures
        ({
            let run = save_run(place, uid, world, SaveEvent::Examined(world.target)).0;
            let temp = run[i]->WriteTemp_0;
            let text = run[i]->WriteTemp_1;
            &&& i >= 2
            &&& run[i - 2] == SaveStep::CreateTemp(temp, STORE_FILE_MODE, text)
            &&& run[i - 1] == SaveStep::RestrictTemp(temp, STORE_FILE_MODE, text)
            &&& world.created_temp == Outcome::Done
            &&& world.restricted_temp == Outcome::Done
        }),
{
    law_saving_follows_the_plan(place, uid, world);
    let run = save_run(place, uid, world, SaveEvent::Examined(world.target)).0;
    let plan = save_plan(place, text_of(world));
    assert forall|k: int| 0 <= k < run.len() implies run[k] == plan[k] by {}
    assert(i == 5);
    reveal_with_fuel(save_run, 9);
}

/// The store changes at once: whichever steps were done, it is as it was
/// before, or it is wholly the new one. It is the new one if saving
/// succeeded, and nothing of an earlier store is left.
pub proof fn law_store_is_replaced_at_once(
    place: PlaceView,
    uid: u32,
    world: SaveWorld,
    disk: Disk,
    n: int,
)
    requires
        has_own_temp(place),
        0 <= n <= save_run(place, uid, world, SaveEvent::Examined(world.target)).0.len(),
    ensures
        ({
            let run = save_run(place, uid, world, SaveEvent::Examined(world.target));
            let now = disk.after_all(run.0.take(n));
            let new = Some(SavedFile { mode: STORE_FILE_MODE, text: text_of(world) });
            &&& now.store == disk.store || now.store == new
            &&& run.1 is Ok && n == run.0.len() ==> now.store == new && now.temp is None
        }),
{
    law_saving_follows_the_plan(place, uid, world);
    lemma_run_on_disk(place, uid, world, disk, n);
    lemma_plan_on_disk(place, text_of(world), disk, n);
}

/// A save that fails leaves the store as it was: whichever of its steps were
/// done, up to the one that failed, the store is the earlier one. Only moving
/// the new store into place can change it, and then that was the step that
/// failed.
pub proof fn law_failed_save_keeps_the_store(
    place: PlaceView,
    uid: u32,
    world: SaveWorld,
    disk: Disk,
    n: int,
)
    requires
        has_own_temp(place),
        save_run(place, uid, world, SaveEvent::Examined(world.target)).1 is Err,
        0 <= n <= save_run(place, uid, world, SaveEvent::Examined(world.target)).0.len(),
    ensures
        ({
            let run = save_run(place, uid, world, SaveEvent::Examined(world.target)).0;
            n < run.len() || n == 0 || !(run.last() is Replace) ==> disk.after_all(
                run.take(n),
            ).store == disk.store
        }),
{
    law_saving_follows_the_plan(place, uid, world);
    lemma_run_on_disk(place, uid, world, disk, n);
    lemma_plan_on_disk(place, text_of(world), disk, n);
}

/// A saved store is trusted when it is read back: it is the user's own
/// regular file, of the mode that saving sets.
pub proof fn law_saved_store_is_trusted(meta: FileMeta, uid: u32)
    requires
        meta.is_file,
        meta.owner matches Some(owner) ==> owner.uid == uid && owner.mode & 0o777
            == STORE_FILE_MODE,
    ensures
        trusted(meta, uid),
{
    law_private_file_is_trusted(meta, uid);
}

/// Loading gives back what was saved. `store` was saved, successfully, and
/// `meta` and `contents` are what is then found in its place: a regular file
/// of the user's own, with the mode and the text that saving left there.
/// Parsing, `parse`, is taken to undo serializing: it makes of the serialized
/// text a store that says what `store` says. Of other texts nothing is known.
pub proof fn law_load_gives_back_the_saved_store(
    place: PlaceView,
    uid: u32,
    world: SaveWorld,
    disk: Disk,
    store: StoreView,
    meta: FileMeta,
    contents: String,
    parse: spec_fn(Seq<char>) -> Result<ConnectionStore, String>,
)
    requires
        has_own_temp(place),
        save_run(place, uid, world, SaveEvent::Examined(world.target)).1 is Ok,
        ({
            let run = save_run(place, uid, world, SaveEvent::Examined(world.target)).0;
            let found = disk.after_all(run).store;
            &&& found is Some
            &&& meta.is_file
            &&& meta.owner matches Some(owner) ==> owner.uid == uid && owner.mode & 0o777
                == found->0.mode
            &&& contents@ == found->0.text
        }),
        world.serialized matches Some(text) ==> (parse(text@) matches Ok(parsed) && parsed@
            == store),
    ensures
        load_run(place.path, uid, Ok(meta), Ok(Some(meta)), Ok(contents), parse) == (LoadedView {
            store,
            warning: None,
        }),
{
    let run = save_run(place, uid, world, SaveEvent::Examined(world.target)).0;
    law_saving_follows_the_plan(place, uid, world);
    law_store_is_replaced_at_once(place, uid, world, disk, run.len() as int);
    assert(run.take(run.len() as int) =~= run);
    law_private_store_is_loaded(place.path, uid, meta, contents, parse);
}

} // verus!
