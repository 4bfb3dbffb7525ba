//! Repair of a runtime's shared libraries.
//!
//! On a platform that needs it, a fixed list of runtime libraries is copied
//! from the system's library directory into a target directory. A library
//! that the system does not have is passed over; a failed copy ends the
//! repair and names the pair of paths that failed. Libraries copied before
//! the failure stay where they are.

use vstd::prelude::*;
use vstd::string::StringExecFns;

verus! {

/// The runtime libraries that a repair copies, in the order of the copy.
#[allow(non_camel_case_types)]
#[derive(Clone, Copy, Debug, PartialEq, Eq, Structural)]
pub enum RuntimeLibrary {
    Vcruntime140,
    Vcruntime140_1,
    Msvcp140,
    Msvcp140_1,
    Msvcp140_2,
    Vcomp140,
}

impl RuntimeLibrary {
    /// The file name of the library.
    pub open spec fn name(self) -> Seq<char> {
        match self {
            RuntimeLibrary::Vcruntime140 => "vcruntime140.dll"@,
            RuntimeLibrary::Vcruntime140_1 => "vcruntime140_1.dll"@,
            RuntimeLibrary::Msvcp140 => "msvcp140.dll"@,
            RuntimeLibrary::Msvcp140_1 => "msvcp140_1.dll"@,
            RuntimeLibrary::Msvcp140_2 => "msvcp140_2.dll"@,
            RuntimeLibrary::Vcomp140 => "vcomp140.dll"@,
        }
    }

    /// The position of the library in the list.
    pub open spec fn position(self) -> int {
        match self {
            RuntimeLibrary::Vcruntime140 => 0,
            RuntimeLibrary::Vcruntime140_1 => 1,
            RuntimeLibrary::Msvcp140 => 2,
            RuntimeLibrary::Msvcp140_1 => 3,
            RuntimeLibrary::Msvcp140_2 => 4,
            RuntimeLibrary::Vcomp140 => 5,
        }
    }

    /// The library that follows in the list, if any.
    pub open spec fn following(self) -> Option<RuntimeLibrary> {
        match self {
            RuntimeLibrary::Vcruntime140 => Some(RuntimeLibrary::Vcruntime140_1),
            RuntimeLibrary::Vcruntime140_1 => Some(RuntimeLibrary::Msvcp140),
            RuntimeLibrary::Msvcp140 => Some(RuntimeLibrary::Msvcp140_1),
            RuntimeLibrary::Msvcp140_1 => Some(RuntimeLibrary::Msvcp140_2),
            RuntimeLibrary::Msvcp140_2 => Some(RuntimeLibrary::Vcomp140),
            RuntimeLibrary::Vcomp140 => None,
        }
    }

    /// Computes [`RuntimeLibrary::name`].
    pub fn file_name(self) -> (text: &'static str)
        ensures
            text@ == self.name(),
    {
        match self {
            RuntimeLibrary::Vcruntime140 => "vcruntime140.dll",
            RuntimeLibrary::Vcruntime140_1 => "vcruntime140_1.dll",
            RuntimeLibrary::Msvcp140 => "msvcp140.dll",
            RuntimeLibrary::Msvcp140_1 => "msvcp140_1.dll",
            RuntimeLibrary::Msvcp140_2 => "msvcp140_2.dll",
            RuntimeLibrary::Vcomp140 => "vcomp140.dll",
        }
    }

    /// Computes [`RuntimeLibrary::following`].
    pub fn successor(self) -> (following: Option<RuntimeLibrary>)
        ensures
            following == self.following(),
    {
        match self {
            RuntimeLibrary::Vcruntime140 => Some(RuntimeLibrary::Vcruntime140_1),
            RuntimeLibrary::Vcruntime140_1 => Some(RuntimeLibrary::Msvcp140),
            RuntimeLibrary::Msvcp140 => Some(RuntimeLibrary::Msvcp140_1),
            RuntimeLibrary::Msvcp140_1 => Some(RuntimeLibrary::Msvcp140_2),
            RuntimeLibrary::Msvcp140_2 => Some(RuntimeLibrary::Vcomp140),
            RuntimeLibrary::Vcomp140 => None,
        }
    }
}

/// A copy that failed: the library's path in the system directory, the path
/// it was to be copied to, and the cause that the host observed.
#[derive(Debug, PartialEq, Eq)]
pub struct PatchFailure {
    pub source: String,
    pub destination: String,
    pub cause: String,
}

impl PatchFailure {
    /// The message of the failure.
    pub open spec fn text(self) -> Seq<char> {
        "Failed to patch runtime dll "@ + self.source@ + " -> "@ + self.destination@ + ": "@
            + self.cause@
    }

    /// Renders the failure as the string that is handed to the caller.
    pub fn message(&self) -> (m: String)
        ensures
            m@ == self.text(),
    {
        let mut m = String::from_str("Failed to patch runtime dll ");
        m.append(self.source.as_str());
        m.append(" -> ");
        m.append(self.destination.as_str());
        m.append(": ");
        m.append(self.cause.as_str());
        m
    }
}

/// What the host is asked to do next.
#[derive(Debug, PartialEq, Eq)]
pub enum RepairAction {
    /// Find out whether the target directory exists.
    ProbeTarget,
    /// Read the environment variable that names the system's root directory.
    ReadSystemRoot,
    /// Find out whether the system's library directory holds `library`.
    ProbeLibrary { library: RuntimeLibrary },
    /// Copy `library` from the system's library directory into the target.
    CopyLibrary { library: RuntimeLibrary },
    /// Nothing more: the repair has ended, with `failure` if a copy failed.
    Finish { failure: Option<PatchFailure> },
}

/// The outcome of the action that was pending.
#[derive(Debug, PartialEq, Eq)]
pub enum RepairReply {
    /// What was probed exists.
    Present,
    /// What was probed does not exist.
    Absent,
    /// The environment variable was read; it holds `value`, if it is set.
    Variable { value: Option<String> },
    /// The action was performed.
    Done,
    /// The copy from `source` to `destination` failed for the given reason.
    Failed { source: String, destination: String, cause: String },
}

/// The state of one repair.
#[derive(Debug, PartialEq, Eq)]
pub struct Repair {
    /// The action whose outcome is awaited.
    pub pending: RepairAction,
    /// The value of the environment variable, once it is read and if it is set.
    pub system_root: Option<String>,
    /// The libraries copied so far, in the order of the copy.
    pub patched: Vec<RuntimeLibrary>,
}

/// A repair as the contracts see it.
pub struct RepairState {
    pub pending: RepairAction,
    pub system_root: Option<String>,
    pub patched: Seq<RuntimeLibrary>,
}

impl View for Repair {
    type V = RepairState;

    open spec fn view(&self) -> RepairState {
        RepairState {
            pending: self.pending,
            system_root: self.system_root,
            patched: self.patched@,
        }
    }
}

/// The action that goes on after `library` has been dealt with.
pub open spec fn move_past(library: RuntimeLibrary) -> RepairAction {
    match library.following() {
        Some(following) => RepairAction::ProbeLibrary { library: following },
        None => RepairAction::Finish { failure: None },
    }
}

impl RepairState {
    /// A repair that has just begun: on a platform that needs it the target
    /// is probed first, elsewhere the repair is over at once.
    pub open spec fn is_initial(self, needed: bool) -> bool {
        &&& self.pending == if needed {
            RepairAction::ProbeTarget
        } else {
            RepairAction::Finish { failure: None }
        }
        &&& self.system_root is None
        &&& self.patched.len() == 0
    }

    /// The root directory of the system: what the environment names, or the
    /// usual place if it names none.
    pub open spec fn root(self) -> Seq<char> {
        match self.system_root {
            Some(value) => value@,
            None => "C:\\Windows"@,
        }
    }

    /// The same repair, waiting for `action`.
    pub open spec fn awaiting(self, action: RepairAction) -> RepairState {
        RepairState { pending: action, ..self }
    }

    /// The state after `reply` has answered the pending action. A reply that
    /// does not answer the pending action leaves the state as it is.
    pub open spec fn next(self, reply: RepairReply) -> RepairState {
        match (self.pending, reply) {
            (RepairAction::ProbeTarget, RepairReply::Absent) => self.awaiting(
                RepairAction::Finish { failure: None },
            ),
            (RepairAction::ProbeTarget, RepairReply::Present) => self.awaiting(
                RepairAction::ReadSystemRoot,
            ),
            (RepairAction::ReadSystemRoot, RepairReply::Variable { value }) => RepairState {
                pending: RepairAction::ProbeLibrary { library: RuntimeLibrary::Vcruntime140 },
                system_root: value,
                ..self
            },
            (RepairAction::ProbeLibrary { library }, RepairReply::Present) => self.awaiting(
                RepairAction::CopyLibrary { library },
            ),
            (RepairAction::ProbeLibrary { library }, RepairReply::Absent) => self.awaiting(
                move_past(library),
            ),
            (RepairAction::CopyLibrary { library }, RepairReply::Done) => RepairState {
                pending: move_past(library),
                patched: self.patched.push(library),
                ..self
            },
            (
                RepairAction::CopyLibrary { .. },
                RepairReply::Failed { source, destination, cause },
            ) => self.awaiting(
                RepairAction::Finish { failure: Some(PatchFailure { source, destination, cause }) },
            ),
            _ => self,
        }
    }
}

/// The directory below the system's root that holds its libraries.
pub const SYSTEM_LIBRARY_DIR: &'static str = "System32";

impl Repair {
    /// Begins a repair. `needed` says whether the platform is one whose
    /// library search requires the repair.
    pub fn start(needed: bool) -> (session: Repair)
        ensures
            session@.is_initial(needed),
    {
        let first = if needed {
            RepairAction::ProbeTarget
        } else {
            RepairAction::Finish { failure: None }
        };
        Repair { pending: first, system_root: None, patched: Vec::new() }
    }

    /// Computes [`RepairState::root`].
    pub fn root_dir(&self) -> (root: String)
        ensures
            root@ == self@.root(),
    {
        match &self.system_root {
            Some(value) => value.clone(),
            None => String::from_str("C:\\Windows"),
        }
    }

    /// The file names of the libraries copied so far, in the order of the
    /// copy.
    pub fn patched_names(&self) -> (names: Vec<String>)
        ensures
            names@.len() == self@.patched.len(),
            forall|i: int| 0 <= i < names@.len() ==> (#[trigger] names@[i])@ == self@.patched[i].name(),
    {
        let mut names: Vec<String> = Vec::new();
        let mut i: usize = 0;
        while i < self.patched.len()
            invariant
                i <= self.patched.len(),
                names@.len() == i,
                forall|j: int|
                    0 <= j < i ==> (#[trigger] names@[j])@ == self.patched@[j].name(),
            decreases self.patched.len() - i,
        {
            names.push(String::from_str(self.patched[i].file_name()));
            i = i + 1;
        }
        names
    }
}

fn past(library: RuntimeLibrary) -> (action: RepairAction)
    ensures
        action == move_past(library),
{
    match library.successor() {
        Some(following) => RepairAction::ProbeLibrary { library: following },
        None => RepairAction::Finish { failure: None },
    }
}

/// Moves a repair on by one reply: returns the state after `reply` has
/// answered the pending action.
pub fn repair_server_runtime(session: Repair, reply: RepairReply) -> (moved: Repair)
    ensures
        moved@ == session@.next(reply),
{
    let Repair { pending, system_root, patched } = session;
    match (pending, reply) {
        (RepairAction::ProbeTarget, RepairReply::Absent) => Repair {
            pending: RepairAction::Finish { failure: None },
            system_root,
            patched,
        },
        (RepairAction::ProbeTarget, RepairReply::Present) => Repair {
            pending: RepairAction::ReadSystemRoot,
            system_root,
            patched,
        },
        (RepairAction::ReadSystemRoot, RepairReply::Variable { value }) => Repair {
            pending: RepairAction::ProbeLibrary { library: RuntimeLibrary::Vcruntime140 },
            system_root: value,
            patched,
        },
        (RepairAction::ProbeLibrary { library }, RepairReply::Present) => Repair {
            pending: RepairAction::CopyLibrary { library },
            system_root,
            patched,
        },
        (RepairAction::ProbeLibrary { library }, RepairReply::Absent) => Repair {
            pending: past(library),
            system_root,
            patched,
        },
        (RepairAction::CopyLibrary { library }, RepairReply::Done) => {
            let mut patched = patched;
            patched.push(library);
            Repair { pending: past(library), system_root, patched }
        },
        (
            RepairAction::CopyLibrary { .. },
            RepairReply::Failed { source, destination, cause },
        ) => Repair {
            pending: RepairAction::Finish {
                failure: Some(PatchFailure { source, destination, cause }),
            },
            system_root,
            patched,
        },
        (pending, _) => Repair { pending, system_root, patched },
    }
}

/// The state after the replies of a run have answered, in order, the actions
/// that were pending in turn.
pub open spec fn after(start: RepairState, replies: Seq<RepairReply>) -> RepairState
    decreases replies.len(),
{
    if replies.len() == 0 {
        start
    } else {
        after(start, replies.drop_last()).next(replies.last())
    }
}

/// The action that reply `i` of a run answers.
pub open spec fn asked(start: RepairState, replies: Seq<RepairReply>, i: int) -> RepairAction {
    after(start, replies.take(i)).pending
}

/// Somewhere in the run `action` was pending and was answered with `reply`.
pub open spec fn answered(
    start: RepairState,
    replies: Seq<RepairReply>,
    action: RepairAction,
    reply: RepairReply,
) -> bool {
    exists|i: int|
        0 <= i < replies.len() && #[trigger] asked(start, replies, i) == action && replies[i]
            == reply
}

/// In the run `library` was found in the system's directory and was copied.
pub open spec fn copied(
    start: RepairState,
    replies: Seq<RepairReply>,
    library: RuntimeLibrary,
) -> bool {
    &&& answered(start, replies, RepairAction::ProbeLibrary { library }, RepairReply::Present)
    &&& answered(start, replies, RepairAction::CopyLibrary { library }, RepairReply::Done)
}

/// The libraries of `patched` stand in the order of the list, each one once,
/// and all of them come before position `bound`.
pub open spec fn in_list_order(patched: Seq<RuntimeLibrary>, bound: int) -> bool {
    &&& forall|i: int, j: int|
        0 <= i < j < patched.len() ==> (#[trigger] patched[i]).position() < (
        #[trigger] patched[j]).position()
    &&& forall|i: int| 0 <= i < patched.len() ==> (#[trigger] patched[i]).position() < bound
}

proof fn lemma_answered_extends(
    start: RepairState,
    replies: Seq<RepairReply>,
    action: RepairAction,
    reply: RepairReply,
)
    requires
        replies.len() > 0,
        answered(start, replies.drop_last(), action, reply),
    ensures
        answered(start, replies, action, reply),
{
    let shorter = replies.drop_last();
    let i = choose|i: int|
        0 <= i < shorter.len() && #[trigger] asked(start, shorter, i) == action && shorter[i]
            == reply;
    assert(shorter.take(i) == replies.take(i));
    assert(asked(start, replies, i) == action);
}

proof fn lemma_answered_last(start: RepairState, replies: Seq<RepairReply>)
    requires
        replies.len() > 0,
    ensures
        answered(start, replies, after(start, replies.drop_last()).pending, replies.last()),
{
    let i = replies.len() - 1;
    assert(replies.take(i) == replies.drop_last());
    assert(asked(start, replies, i) == after(start, replies.drop_last()).pending);
}

/// What holds of the list of copied libraries at every point of a run.
spec fn accounted(start: RepairState, replies: Seq<RepairReply>) -> bool {
    let state = after(start, replies);
    &&& forall|i: int|
        0 <= i < state.patched.len() ==> copied(start, replies, #[trigger] state.patched[i])
    &&& match state.pending {
        RepairAction::ProbeTarget => state.patched.len() == 0,
        RepairAction::ReadSystemRoot => state.patched.len() == 0,
        RepairAction::ProbeLibrary { library } => in_list_order(state.patched, library.position()),
        RepairAction::CopyLibrary { library } => {
            &&& in_list_order(state.patched, library.position())
            &&& answered(
                start,
                replies,
                RepairAction::ProbeLibrary { library },
                RepairReply::Present,
            )
        },
        RepairAction::Finish { .. } => in_list_order(state.patched, 6),
    }
}

proof fn lemma_accounted(start: RepairState, replies: Seq<RepairReply>, needed: bool)
    requires
        start.is_initial(needed),
    ensures
        accounted(start, replies),
    decreases replies.len(),
{
    if replies.len() > 0 {
        let shorter = replies.drop_last();
        let before = after(start, shorter);
        let state = after(start, replies);
        lemma_accounted(start, shorter, needed);
        lemma_answered_last(start, replies);
        assert forall|i: int| 0 <= i < state.patched.len() implies copied(
            start,
            replies,
            #[trigger] state.patched[i],
        ) by {
            if i < before.patched.len() {
                let library = before.patched[i];
                assert(copied(start, shorter, library));
                lemma_answered_extends(
                    start,
                    replies,
                    RepairAction::ProbeLibrary { library },
                    RepairReply::Present,
                );
                lemma_answered_extends(
                    start,
                    replies,
                    RepairAction::CopyLibrary { library },
                    RepairReply::Done,
                );
            } else {
                let library = state.patched[i];
                lemma_answered_extends(
                    start,
                    replies,
                    RepairAction::ProbeLibrary { library },
                    RepairReply::Present,
                );
            }
        }
        if let RepairAction::CopyLibrary { library } = before.pending {
            if !(replies.last() == RepairReply::Done) {
                if state.pending is CopyLibrary {
                    lemma_answered_extends(
                        start,
                        replies,
                        RepairAction::ProbeLibrary { library },
                        RepairReply::Present,
                    );
                }
            }
        }
    }
}

/// Every library that a repair reports as copied was found in the system's
/// directory and was copied, and the report follows the order of the list.
///
/// For every run from the beginning: each library in the list of copied
/// libraries was probed and found present, and its copy was performed; the
/// copied libraries stand in the order of the fixed list, none of them twice.
pub proof fn law_copied_libraries_were_present(
    start: RepairState,
    replies: Seq<RepairReply>,
    needed: bool,
)
    requires
        start.is_initial(needed),
    ensures
        forall|i: int|
            0 <= i < after(start, replies).patched.len() ==> copied(
                start,
                replies,
                #[trigger] after(start, replies).patched[i],
            ),
        in_list_order(after(start, replies).patched, 6),
{
    lemma_accounted(start, replies, needed);
}

/// Where no repair is needed, or the target directory is missing, nothing is
/// copied and the repair ends without a failure.
pub proof fn law_nothing_to_repair(start: RepairState, replies: Seq<RepairReply>)
    requires
        start.patched.len() == 0,
        start.pending == (RepairAction::Finish { failure: None }) || (start.pending
            == RepairAction::ProbeTarget && replies.len() > 0 && replies[0]
            == RepairReply::Absent),
    ensures
        after(start, replies).pending == (RepairAction::Finish { failure: None }),
        after(start, replies).patched.len() == 0,
    decreases replies.len(),
{
    if replies.len() > 1 {
        assert(replies.drop_last()[0] == replies[0]);
        law_nothing_to_repair(start, replies.drop_last());
    } else if replies.len() == 1 {
        assert(after(start, replies.drop_last()) == start);
        assert(replies.last() == replies[0]);
    }
}

/// In the run `library` was probed, and it stands in the list of copied
/// libraries exactly if it was found present.
pub open spec fn settled(
    start: RepairState,
    replies: Seq<RepairReply>,
    library: RuntimeLibrary,
) -> bool {
    let patched = after(start, replies).patched;
    ||| answered(start, replies, RepairAction::ProbeLibrary { library }, RepairReply::Present)
        && patched.contains(library)
    ||| answered(start, replies, RepairAction::ProbeLibrary { library }, RepairReply::Absent)
        && !patched.contains(library)
}

/// Every library before position `bound` is settled.
spec fn settled_before(start: RepairState, replies: Seq<RepairReply>, bound: int) -> bool {
    forall|library: RuntimeLibrary|
        library.position() < bound ==> #[trigger] settled(start, replies, library)
}

proof fn lemma_answered_splits(
    start: RepairState,
    replies: Seq<RepairReply>,
    action: RepairAction,
    reply: RepairReply,
)
    requires
        replies.len() > 0,
        answered(start, replies, action, reply),
    ensures
        answered(start, replies.drop_last(), action, reply) || (after(
            start,
            replies.drop_last(),
        ).pending == action && replies.last() == reply),
{
    let shorter = replies.drop_last();
    let i = choose|i: int|
        0 <= i < replies.len() && #[trigger] asked(start, replies, i) == action && replies[i]
            == reply;
    if i < shorter.len() {
        assert(shorter.take(i) == replies.take(i));
        assert(asked(start, shorter, i) == action);
    } else {
        assert(replies.take(i) == shorter);
    }
}

/// What has been settled at every point of a run.
spec fn thorough(start: RepairState, replies: Seq<RepairReply>) -> bool {
    let state = after(start, replies);
    match state.pending {
        RepairAction::ProbeTarget => !answered(
            start,
            replies,
            RepairAction::ProbeTarget,
            RepairReply::Present,
        ),
        RepairAction::ReadSystemRoot => true,
        RepairAction::ProbeLibrary { library } => settled_before(
            start,
            replies,
            library.position(),
        ),
        RepairAction::CopyLibrary { library } => settled_before(
            start,
            replies,
            library.position(),
        ),
        RepairAction::Finish { failure } => failure is None && answered(
            start,
            replies,
            RepairAction::ProbeTarget,
            RepairReply::Present,
        ) ==> settled_before(start, replies, 6),
    }
}

proof fn lemma_settled_extends(
    start: RepairState,
    replies: Seq<RepairReply>,
    library: RuntimeLibrary,
)
    requires
        replies.len() > 0,
        settled(start, replies.drop_last(), library),
        after(start, replies).patched == after(start, replies.drop_last()).patched || (exists|
            copied: RuntimeLibrary,
        |
            copied != library && after(start, replies).patched == after(
                start,
                replies.drop_last(),
            ).patched.push(copied)),
    ensures
        settled(start, replies, library),
{
    let shorter = replies.drop_last();
    let old_list = after(start, shorter).patched;
    let new_list = after(start, replies).patched;
    if answered(start, shorter, RepairAction::ProbeLibrary { library }, RepairReply::Present)
        && old_list.contains(library) {
        lemma_answered_extends(
            start,
            replies,
            RepairAction::ProbeLibrary { library },
            RepairReply::Present,
        );
        let i = choose|i: int| 0 <= i < old_list.len() && old_list[i] == library;
        assert(new_list[i] == library);
    } else {
        lemma_answered_extends(
            start,
            replies,
            RepairAction::ProbeLibrary { library },
            RepairReply::Absent,
        );
        if new_list.contains(library) {
            let i = choose|i: int| 0 <= i < new_list.len() && new_list[i] == library;
            if i < old_list.len() {
                assert(old_list[i] == library);
            }
        }
    }
}

proof fn lemma_thorough(start: RepairState, replies: Seq<RepairReply>, needed: bool)
    requires
        start.is_initial(needed),
    ensures
        thorough(start, replies),
    decreases replies.len(),
{
    if replies.len() == 0 {
        assert(!answered(start, replies, RepairAction::ProbeTarget, RepairReply::Present));
    } else {
        let shorter = replies.drop_last();
        let before = after(start, shorter);
        let state = after(start, replies);
        let reply = replies.last();
        lemma_thorough(start, shorter, needed);
        lemma_accounted(start, shorter, needed);
        lemma_answered_last(start, replies);
        if answered(start, replies, RepairAction::ProbeTarget, RepairReply::Present) {
            lemma_answered_splits(
                start,
                replies,
                RepairAction::ProbeTarget,
                RepairReply::Present,
            );
        }
        match before.pending {
            RepairAction::ProbeLibrary { library } => {
                assert forall|m: RuntimeLibrary|
                    m.position() < library.position() implies #[trigger] settled(
                    start,
                    replies,
                    m,
                ) by {
                    lemma_settled_extends(start, replies, m);
                }
                if reply == RepairReply::Absent {
                    assert(!state.patched.contains(library));
                    assert(settled(start, replies, library));
                }
            },
            RepairAction::CopyLibrary { library } => {
                assert forall|m: RuntimeLibrary|
                    m.position() < library.position() implies #[trigger] settled(
                    start,
                    replies,
                    m,
                ) by {
                    lemma_settled_extends(start, replies, m);
                }
                if reply == RepairReply::Done {
                    lemma_answered_extends(
                        start,
                        replies,
                        RepairAction::ProbeLibrary { library },
                        RepairReply::Present,
                    );
                    assert(state.patched[state.patched.len() - 1] == library);
                    assert(settled(start, replies, library));
                }
            },
            RepairAction::Finish { failure } => {
                if failure is None && answered(
                    start,
                    replies,
                    RepairAction::ProbeTarget,
                    RepairReply::Present,
                ) {
                    assert forall|m: RuntimeLibrary| m.position() < 6 implies #[trigger] settled(
                        start,
                        replies,
                        m,
                    ) by {
                        lemma_settled_extends(start, replies, m);
                    }
                }
            },
            _ => {},
        }
    }
}

/// A repair that ends without a failure has tried every library of the list.
///
/// For every run from the beginning on a platform that needs the repair, in
/// which the target directory was found and which ended without a failure:
/// each library of the list was probed in the system's directory, and it
/// stands in the list of copied libraries exactly if it was found there.
pub proof fn law_finished_repair_has_tried_every_library(
    start: RepairState,
    replies: Seq<RepairReply>,
    library: RuntimeLibrary,
)
    requires
        start.is_initial(true),
        answered(start, replies, RepairAction::ProbeTarget, RepairReply::Present),
        after(start, replies).pending == (RepairAction::Finish { failure: None }),
    ensures
        settled(start, replies, library),
{
    lemma_thorough(start, replies, true);
}

} // verus!
