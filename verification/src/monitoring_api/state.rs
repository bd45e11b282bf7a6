//! The file that keeps counters over a restart.

use vstd::prelude::*;

use crate::reading::Reading;
use crate::serial_map::SerialMap;

verus! {

/// The version of the file that is written and read.
pub const CURRENT_VERSION: u32 = 1;

/// What the file holds.
#[derive(Debug)]
pub struct PersistentState {
    /// Version of the file.
    pub version: u32,
    /// End of the last window that storage data was queried for, as text.
    pub last_storage_end: Option<String>,
    /// Counters by the serial number of the battery.
    pub batteries: SerialMap<BatteryState>,
}

/// The counter of a battery.
#[derive(Debug, Clone)]
pub struct BatteryState {
    /// Model. It is kept so that the counter goes on under the same labels.
    pub model: String,
    /// Energy charged from the grid, in watt hours.
    pub ac_grid_charging_watt_hours: Reading,
}

/// The counter of a battery, in texts.
#[verifier::ext_equal]
pub struct TotalView {
    /// Model.
    pub model: Seq<char>,
    /// Energy charged from the grid, in watt hours.
    pub watt_hours: Reading,
}

impl View for BatteryState {
    type V = TotalView;

    open spec fn view(&self) -> TotalView {
        TotalView { model: self.model@, watt_hours: self.ac_grid_charging_watt_hours }
    }
}

/// Counters by serial number, in texts.
pub open spec fn state_totals(batteries: Map<Seq<char>, BatteryState>) -> Map<
    Seq<char>,
    TotalView,
> {
    Map::new(|serial: Seq<char>| batteries.contains_key(serial), |serial: Seq<char>| batteries[serial]@)
}

impl Default for PersistentState {
    fn default() -> (r: PersistentState)
        ensures
            r.version == CURRENT_VERSION,
            r.last_storage_end is None,
            r.batteries@ == Map::<Seq<char>, BatteryState>::empty(),
    {
        PersistentState {
            version: CURRENT_VERSION,
            last_storage_end: None,
            batteries: SerialMap::new(),
        }
    }
}

/// What can go wrong with the file.
#[derive(Debug)]
pub enum StateError {
    /// It cannot be read.
    Read {
        /// The file.
        path: String,
        /// What went wrong.
        message: String,
    },
    /// It cannot be written.
    Write {
        /// The file.
        path: String,
        /// What went wrong.
        message: String,
    },
    /// It has another version.
    VersionMismatch {
        /// The file.
        path: String,
        /// Its version.
        version: u32,
    },
    /// It cannot be decoded.
    Parse {
        /// The file.
        path: String,
        /// What went wrong.
        message: String,
    },
    /// Its content cannot be encoded.
    Serialize(String),
}

/// What can go wrong with the file, in texts.
#[verifier::ext_equal]
pub enum StateErrorView {
    /// It cannot be read.
    Read {
        /// The file.
        path: Seq<char>,
        /// What went wrong.
        message: Seq<char>,
    },
    /// It cannot be written.
    Write {
        /// The file.
        path: Seq<char>,
        /// What went wrong.
        message: Seq<char>,
    },
    /// It has another version.
    VersionMismatch {
        /// The file.
        path: Seq<char>,
        /// Its version.
        version: u32,
    },
    /// It cannot be decoded.
    Parse {
        /// The file.
        path: Seq<char>,
        /// What went wrong.
        message: Seq<char>,
    },
    /// Its content cannot be encoded.
    Serialize(Seq<char>),
}

impl View for StateError {
    type V = StateErrorView;

    open spec fn view(&self) -> StateErrorView {
        match *self {
            StateError::Read { path, message } => StateErrorView::Read {
                path: path@,
                message: message@,
            },
            StateError::Write { path, message } => StateErrorView::Write {
                path: path@,
                message: message@,
            },
            StateError::VersionMismatch { path, version } => StateErrorView::VersionMismatch {
                path: path@,
                version,
            },
            StateError::Parse { path, message } => StateErrorView::Parse {
                path: path@,
                message: message@,
            },
            StateError::Serialize(message) => StateErrorView::Serialize(message@),
        }
    }
}

/// What came of reading the file.
#[derive(Debug)]
pub enum FileRead {
    /// There is no such file.
    Missing,
    /// It cannot be read.
    Failed(String),
    /// Its content.
    Body(String),
}

/// What a decoded file comes to: its error, or its content where it has the
/// version that is read here.
pub open spec fn version_checked(
    path: Seq<char>,
    decoded: Result<PersistentState, String>,
    r: Result<PersistentState, StateError>,
) -> bool {
    match decoded {
        Err(message) => r is Err && r->Err_0@ == (StateErrorView::Parse {
            path,
            message: message@,
        }),
        Ok(state) => if state.version != CURRENT_VERSION {
            r is Err && r->Err_0@ == (StateErrorView::VersionMismatch {
                path,
                version: state.version,
            })
        } else {
            r == Ok::<PersistentState, StateError>(state)
        },
    }
}

impl PersistentState {
    /// Turns what was read of the file into its content. A missing file is
    /// one without counters.
    pub fn load<F: FnOnce(&str) -> Result<PersistentState, String>>(
        path: &str,
        read: FileRead,
        decode: F,
    ) -> (r: Result<PersistentState, StateError>)
        requires
            forall|body: &str| #[trigger] decode.requires((body,)),
        ensures
            match read {
                FileRead::Missing => {
                    &&& r is Ok
                    &&& r->Ok_0.version == CURRENT_VERSION
                    &&& r->Ok_0.last_storage_end is None
                    &&& r->Ok_0.batteries@ == Map::<Seq<char>, BatteryState>::empty()
                },
                FileRead::Failed(message) => {
                    &&& r is Err
                    &&& r->Err_0@ == (StateErrorView::Read { path: path@, message: message@ })
                },
                FileRead::Body(body) => exists|s: &str, decoded: Result<PersistentState, String>|
                 #[trigger]
                    decode.ensures((s,), decoded) && s@ == body@ && version_checked(
                        path@,
                        decoded,
                        r,
                    ),
            },
    {
        match read {
            FileRead::Missing => Ok(PersistentState::default()),
            FileRead::Failed(message) => Err(StateError::Read { path: path.to_owned(), message }),
            FileRead::Body(body) => {
                let decoded = decode(body.as_str());
                PersistentState::check_version(path, decoded)
            },
        }
    }

    /// Checks the version of a decoded file.
    pub fn check_version(path: &str, decoded: Result<PersistentState, String>) -> (r: Result<
        PersistentState,
        StateError,
    >)
        ensures
            version_checked(path@, decoded, r),
    {
        match decoded {
            Err(message) => Err(StateError::Parse { path: path.to_owned(), message }),
            Ok(state) => {
                if state.version != CURRENT_VERSION {
                    Err(
                        StateError::VersionMismatch {
                            path: path.to_owned(),
                            version: state.version,
                        },
                    )
                } else {
                    Ok(state)
                }
            },
        }
    }
}

/// The last component of a path, if it is a name, by the path syntax of the
/// platform that the library is built for.
pub uninterp spec fn file_name_of(path: Seq<char>) -> Option<Seq<char>>;

/// A path with another last component, by the path syntax of the platform that
/// the library is built for.
pub uninterp spec fn path_with_name(path: Seq<char>, name: Seq<char>) -> Seq<char>;

/// The name of the file that is written before it takes the place of another.
pub open spec fn temporary_name(path: Seq<char>) -> Seq<char> {
    match file_name_of(path) {
        Some(name) => name + ".tmp"@,
        None => ".tmp"@,
    }
}

/// The file that is written before it takes the place of another.
pub open spec fn sibling(path: Seq<char>) -> Seq<char> {
    path_with_name(path, temporary_name(path))
}

/// Calls `std::path::Path::file_name`. Claimed of it: on one platform what it
/// gives depends on the path alone.
#[verifier::external_body]
fn file_name(path: &str) -> (r: Option<String>)
    ensures
        match r {
            Some(name) => file_name_of(path@) == Some(name@),
            None => file_name_of(path@) is None,
        },
{
    std::path::Path::new(path).file_name().map(|name| name.to_string_lossy().into_owned())
}

/// Calls `std::path::Path::with_file_name`. Claimed of it: on one platform the
/// path that it gives depends on its arguments alone, and with this name it is
/// never the path itself.
#[verifier::external_body]
fn with_file_name(path: &str, name: &str) -> (r: String)
    requires
        name@ == temporary_name(path@),
    ensures
        r@ == path_with_name(path@, name@),
        r@ != path@,
{
    std::path::Path::new(path).with_file_name(name).to_string_lossy().into_owned()
}

/// The file that is written before it takes the place of another: one beside
/// it, and never the file itself.
pub fn sibling_tempfile(path: &str) -> (r: String)
    ensures
        r@ == sibling(path@),
        r@ != path@,
{
    let name = match file_name(path) {
        Some(name) => {
            let mut name = name;
            name.append(".tmp");
            name
        },
        None => ".tmp".to_owned(),
    };
    with_file_name(path, name.as_str())
}

/// What is to be done next to save the file.
#[derive(Debug)]
pub enum SaveAction {
    /// The content is written to a file.
    Write {
        /// The file.
        to: String,
    },
    /// A file takes the place of another.
    Rename {
        /// The file.
        from: String,
        /// The other.
        to: String,
    },
    /// A file is removed; it does not matter if that fails.
    Remove {
        /// The file.
        path: String,
    },
    /// Nothing more.
    Done,
}

/// How far a file is saved.
#[derive(Debug)]
pub enum SaveStage {
    /// The content is to be written beside the file.
    Write,
    /// It is to take the place of the file.
    Rename,
    /// That failed, and what was written is to be removed.
    Remove {
        /// What went wrong.
        message: String,
    },
    /// It is saved, or it is not.
    Done(Result<(), StateError>),
}

/// A file that is being saved.
#[derive(Debug)]
pub struct Save {
    /// The file.
    pub path: String,
    /// What is written before it takes the place of the file.
    pub tmp: String,
    /// How far it is saved.
    pub stage: SaveStage,
}

/// The error of a file that cannot be written.
pub open spec fn write_error(path: Seq<char>, message: Seq<char>) -> StateErrorView {
    StateErrorView::Write { path, message }
}

impl Save {
    /// Begins to save a file.
    pub fn begin(path: &str) -> (r: Save)
        ensures
            r.path@ == path@,
            r.tmp@ == sibling(path@),
            r.tmp@ != r.path@,
            r.stage is Write,
    {
        Save { path: path.to_owned(), tmp: sibling_tempfile(path), stage: SaveStage::Write }
    }

    /// What is to be done next. Only what has been written whole ever takes
    /// the place of the file.
    pub fn action(&self) -> (r: SaveAction)
        ensures
            match self.stage {
                SaveStage::Write => r matches SaveAction::Write { to } && to@ == self.tmp@,
                SaveStage::Rename => r matches SaveAction::Rename { from, to } && from@ == self.tmp@
                    && to@ == self.path@,
                SaveStage::Remove { .. } => r matches SaveAction::Remove { path } && path@
                    == self.tmp@,
                SaveStage::Done(_) => r is Done,
            },
    {
        match &self.stage {
            SaveStage::Write => SaveAction::Write { to: self.tmp.clone() },
            SaveStage::Rename => SaveAction::Rename {
                from: self.tmp.clone(),
                to: self.path.clone(),
            },
            SaveStage::Remove { .. } => SaveAction::Remove { path: self.tmp.clone() },
            SaveStage::Done(_) => SaveAction::Done,
        }
    }

    /// Takes in what came of the action. A failed write or rename is the
    /// outcome; whether the removal after it fails does not matter.
    pub fn step(&mut self, outcome: Result<(), String>)
        ensures
            final(self).path == old(self).path,
            final(self).tmp == old(self).tmp,
            match (old(self).stage, outcome) {
                (SaveStage::Write, Ok(())) => final(self).stage is Rename,
                (SaveStage::Write, Err(message)) => {
                    &&& final(self).stage matches SaveStage::Done(Err(e))
                    &&& e@ == write_error(old(self).tmp@, message@)
                },
                (SaveStage::Rename, Ok(())) => final(self).stage == SaveStage::Done(Ok(())),
                (SaveStage::Rename, Err(message)) => final(self).stage == (SaveStage::Remove {
                    message,
                }),
                (SaveStage::Remove { message }, _) => {
                    &&& final(self).stage matches SaveStage::Done(Err(e))
                    &&& e@ == write_error(old(self).path@, message@)
                },
                (SaveStage::Done(_), _) => final(self).stage == old(self).stage,
            },
    {
        let mut stage = SaveStage::Write;
        std::mem::swap(&mut stage, &mut self.stage);
        self.stage = match (stage, outcome) {
            (SaveStage::Write, Ok(())) => SaveStage::Rename,
            (SaveStage::Write, Err(message)) => SaveStage::Done(
                Err(StateError::Write { path: self.tmp.clone(), message }),
            ),
            (SaveStage::Rename, Ok(())) => SaveStage::Done(Ok(())),
            (SaveStage::Rename, Err(message)) => SaveStage::Remove { message },
            (SaveStage::Remove { message }, _) => SaveStage::Done(
                Err(StateError::Write { path: self.path.clone(), message }),
            ),
            (SaveStage::Done(outcome), _) => SaveStage::Done(outcome),
        };
    }
}

/// A file is used exactly where it can be decoded and has version 1, and as it
/// was decoded. Why it cannot be used is told with its path.
pub proof fn lemma_version(
    path: Seq<char>,
    decoded: Result<PersistentState, String>,
    r: Result<PersistentState, StateError>,
)
    requires
        version_checked(path, decoded, r),
    ensures
        r is Ok <==> decoded is Ok && decoded->Ok_0.version == 1,
        r matches Ok(state) ==> decoded == Ok::<PersistentState, String>(state),
        decoded matches Err(message) ==> r->Err_0@ == (StateErrorView::Parse {
            path,
            message: message@,
        }),
        decoded is Ok && decoded->Ok_0.version != 1 ==> r->Err_0@ == (
        StateErrorView::VersionMismatch { path, version: decoded->Ok_0.version }),
{
}

/// Counters in texts are those of the map, one for one.
pub proof fn lemma_totals(batteries: Map<Seq<char>, BatteryState>, serial: Seq<char>)
    ensures
        state_totals(batteries).contains_key(serial) <==> batteries.contains_key(serial),
        batteries.contains_key(serial) ==> state_totals(batteries)[serial].model
            == batteries[serial].model@ && state_totals(batteries)[serial].watt_hours
            == batteries[serial].ac_grid_charging_watt_hours,
{
}

/// What is written before it takes the place of a file goes by the name of the
/// file with `.tmp` behind it, beside the file.
pub proof fn lemma_sibling(path: Seq<char>)
    ensures
        file_name_of(path) matches Some(name) ==> sibling(path) == path_with_name(
            path,
            name + ".tmp"@,
        ),
        file_name_of(path) is None ==> sibling(path) == path_with_name(path, ".tmp"@),
{
}

/// A file that is saved is written beside its place and only then put there;
/// where it cannot be put there, what was written is removed.
pub proof fn lemma_save_action(save: &Save, r: SaveAction)
    requires
        call_ensures(Save::action, (save,), r),
    ensures
        r matches SaveAction::Write { to } ==> to@ == save.tmp@ && save.stage is Write,
        r matches SaveAction::Rename { from, to } ==> from@ == save.tmp@ && to@ == save.path@
            && save.stage is Rename,
        r matches SaveAction::Remove { path } ==> path@ == save.tmp@ && save.stage is Remove,
        r is Done ==> save.stage is Done,
{
}

/// How a file is saved, step by step: what is written is put in its place, and
/// the file is saved where both succeed. A failed write is told of the file
/// beside, and ends it; a failed rename is told of the file itself, once what was
/// written is removed, whether that succeeds or not. Nothing follows the end.
pub proof fn lemma_save_step(save: &mut Save, outcome: Result<(), String>)
    requires
        call_ensures(Save::step, (save, outcome), ()),
    ensures
        final(save).path@ == old(save).path@,
        final(save).tmp@ == old(save).tmp@,
        old(save).stage is Write && outcome is Ok ==> final(save).stage is Rename,
        old(save).stage is Write && outcome is Err ==> (final(save).stage matches SaveStage::Done(
            Err(StateError::Write { path, message }),
        ) && path@ == old(save).tmp@ && message@ == outcome->Err_0@),
        old(save).stage is Rename && outcome is Ok ==> final(save).stage == SaveStage::Done(Ok(())),
        old(save).stage is Rename && outcome is Err ==> (final(save).stage matches SaveStage::Remove {
            message,
        } && message@ == outcome->Err_0@),
        old(save).stage matches SaveStage::Remove { message: first } ==> (
        final(save).stage matches SaveStage::Done(Err(StateError::Write { path, message }))
            && path@ == old(save).path@ && message@ == first@),
        old(save).stage is Done ==> final(save).stage == old(save).stage,
{
}

/// A save begins with the file beside, which is another file.
pub proof fn lemma_save_begun(path: &str, r: Save)
    requires
        call_ensures(Save::begin, (path,), r),
    ensures
        r.stage is Write,
        r.path@ == path@,
        r.tmp@ == sibling(path@),
        r.tmp@ != r.path@,
{
}

/// Without a file there are no counters and no last window; one that cannot be
/// read is told with its path and the reason; and one that can is loaded as it is
/// decoded, where it has version 1.
pub proof fn lemma_file_loaded<F: FnOnce(&str) -> Result<PersistentState, String>>(
    path: &str,
    read: FileRead,
    decode: F,
    r: Result<PersistentState, StateError>,
    serial: Seq<char>,
)
    requires
        call_ensures(PersistentState::load::<F>, (path, read, decode), r),
    ensures
        read is Missing ==> (r matches Ok(state) && state.version == 1
            && state.last_storage_end is None && !state.batteries@.contains_key(serial)),
        read matches FileRead::Failed(message) ==> (r matches Err(
            StateError::Read { path: p, message: m },
        ) && p@ == path@ && m@ == message@),
        read matches FileRead::Body(body) ==> (r matches Ok(state) ==> state.version == 1
            && exists|s: &str| #[trigger] decode.ensures((s,), Ok(state)) && s@ == body@),
{
    if let FileRead::Body(body) = read {
        let (s, decoded) = choose|s: &str, decoded: Result<PersistentState, String>| #[trigger]
            decode.ensures((s,), decoded) && s@ == body@ && version_checked(path@, decoded, r);
        if r is Ok {
            assert(decode.ensures((s,), Ok(r->Ok_0)));
        }
    }
}

} // verus!
