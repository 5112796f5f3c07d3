//! Where the engine keeps its files.
//!
//! Every path is made here, from one base directory and the names of instances. Also
//! here: how a file is replaced so that readers see the old contents or the new, and
//! never a part.
use crate::name::{name_fault, InstanceName};
use crate::text::{dec, push_dec};
use std::path::PathBuf;
use vstd::prelude::*;

verus! {

/// The environment variable that names the base directory.
pub const STATE_DIR_ENV: &'static str = "KTESIO_STATE_DIR";

/// The state database.
pub const STATE_DB_FILE: &'static str = "state.db";

/// The secrets.
pub const SECRETS_FILE: &'static str = "secrets.toml";

/// The directory of all agent homes.
pub const AGENTS_DIR: &'static str = "agents";

/// The config of an instance, in its home.
pub const INSTANCE_CONFIG_FILE: &'static str = "config.toml";

/// The effective config of an instance at its last start, in its home.
pub const EFFECTIVE_CONFIG_SNAPSHOT_FILE: &'static str = "effective-config.json";

/// The managed memory of an instance, in its home.
pub const MEMORY_DIR: &'static str = "memory";

/// A path of the operating system.
#[verifier::external_type_specification]
#[verifier::external_body]
pub struct ExPathBuf(std::path::PathBuf);

/// What a path is made of, as text: the pieces between its separators that are not empty, a
/// drive in front being one of its own.
pub uninterp spec fn path_components(path: std::path::PathBuf) -> Seq<Seq<char>>;

/// Whether a character can stand in a plain component.
pub open spec fn plain_char(c: char) -> bool {
    ('a' <= c && c <= 'z') || ('A' <= c && c <= 'Z') || ('0' <= c && c <= '9') || c == '-' || c
        == '_' || c == '.'
}

/// Whether a text is a single ordinary component of a path: no separator, no drive, no
/// reference to the directory itself or its parent.
pub open spec fn plain_component(text: Seq<char>) -> bool {
    &&& text.len() > 0
    &&& forall|i: int| 0 <= i < text.len() ==> plain_char(#[trigger] text[i])
    &&& text[0] != '.'
}

/// A path with a component joined to it.
pub uninterp spec fn joined(base: std::path::PathBuf, component: Seq<char>) -> std::path::PathBuf;

/// `Path::join` with a single ordinary component. Claimed: the path depends on the two
/// alone, and it has that component added at the end.
#[verifier::external_body]
fn join(base: &PathBuf, component: &str) -> (r: PathBuf)
    requires
        plain_component(component@),
    ensures
        r == joined(*base, component@),
        path_components(r) == path_components(*base).push(component@),
{
    base.join(component)
}

/// A path as text, what is no text in it replaced.
pub uninterp spec fn path_text(path: std::path::PathBuf) -> Seq<char>;

/// `Path::to_string_lossy`. Claimed: the text depends on the path alone.
#[verifier::external_body]
pub(crate) fn text_of_path(path: &PathBuf) -> (r: String)
    ensures
        r@ == path_text(*path),
{
    path.to_string_lossy().into_owned()
}

/// Why there is no base directory.
#[derive(Clone, Debug, PartialEq, Eq)]
pub enum PathError {
    /// Nothing names one.
    NoStateDir,
    /// The environment names one that is not absolute.
    RelativeStateDir {
        /// What it says.
        value: String,
    },
}

impl PathError {
    /// The text of the error.
    pub open spec fn text(self) -> Seq<char> {
        match self {
            PathError::NoStateDir => "could not determine a state directory; set "@
                + STATE_DIR_ENV@ + " to an explicit path"@,
            PathError::RelativeStateDir { value } => STATE_DIR_ENV@
                + " must be an absolute path, but was '"@ + value@
                + "'; set it to an absolute path"@,
        }
    }

    /// The text of the error.
    pub fn message(&self) -> (r: String)
        ensures
            r@ == self.text(),
    {
        match self {
            PathError::NoStateDir => {
                let mut out = "could not determine a state directory; set ".to_owned();
                out.append(STATE_DIR_ENV);
                out.append(" to an explicit path");
                out
            },
            PathError::RelativeStateDir { value } => {
                let mut out = STATE_DIR_ENV.to_owned();
                out.append(" must be an absolute path, but was '");
                out.append(value.as_str());
                out.append("'; set it to an absolute path");
                out
            },
        }
    }
}

/// What the environment says about the base directory.
pub struct StateDirEnv {
    /// The directory.
    pub path: PathBuf,
    /// Its path as text.
    pub text: String,
    /// Whether it is absolute.
    pub absolute: bool,
}

/// The base directory: the given one; else the one that the environment names, which has
/// to be absolute; else the platform's. An empty variable names none.
pub open spec fn chosen_base(
    override_base: Option<PathBuf>,
    environment: Option<StateDirEnv>,
    platform: Option<PathBuf>,
) -> Result<PathBuf, PathError> {
    match override_base {
        Some(base) => Ok(base),
        None => match environment {
            Some(env) if env.text@.len() > 0 => if env.absolute {
                Ok(env.path)
            } else {
                Err(PathError::RelativeStateDir { value: env.text })
            },
            _ => match platform {
                Some(base) => Ok(base),
                None => Err(PathError::NoStateDir),
            },
        },
    }
}

/// Where the engine keeps its files.
pub struct EnginePaths {
    state_base: PathBuf,
}

impl EnginePaths {
    /// The base directory.
    pub closed spec fn base(&self) -> PathBuf {
        self.state_base
    }

    /// The base directory is the given one; else the one that the environment names,
    /// which has to be absolute; else the platform's. An empty variable names none.
    pub fn new(
        override_base: Option<PathBuf>,
        environment: Option<StateDirEnv>,
        platform: Option<PathBuf>,
    ) -> (r: Result<Self, PathError>)
        ensures
            match r {
                Ok(paths) => chosen_base(override_base, environment, platform) == Ok::<
                    PathBuf,
                    PathError,
                >(paths.base()),
                Err(e) => chosen_base(override_base, environment, platform) == Err::<
                    PathBuf,
                    PathError,
                >(e),
            },
    {
        if let Some(base) = override_base {
            return Ok(EnginePaths { state_base: base });
        }
        if let Some(env) = environment {
            if !env.text.as_str().is_empty() {
                if !env.absolute {
                    return Err(PathError::RelativeStateDir { value: env.text });
                }
                return Ok(EnginePaths { state_base: env.path });
            }
        }
        match platform {
            Some(base) => Ok(EnginePaths { state_base: base }),
            None => Err(PathError::NoStateDir),
        }
    }

    /// The base directory.
    pub fn state_base(&self) -> (r: &PathBuf)
        ensures
            *r == self.base(),
    {
        &self.state_base
    }

    /// The state database.
    pub fn state_db(&self) -> (r: PathBuf)
        ensures
            r == joined(self.base(), STATE_DB_FILE@),
            path_components(r) == path_components(self.base()).push(STATE_DB_FILE@),
    {
        proof {
            lemma_own_components();
        }
        join(&self.state_base, STATE_DB_FILE)
    }

    /// The secrets.
    pub fn secrets_file(&self) -> (r: PathBuf)
        ensures
            r == joined(self.base(), SECRETS_FILE@),
            path_components(r) == path_components(self.base()).push(SECRETS_FILE@),
    {
        proof {
            lemma_own_components();
        }
        join(&self.state_base, SECRETS_FILE)
    }

    /// The directory of all agent homes.
    pub fn agents_dir(&self) -> (r: PathBuf)
        ensures
            r == joined(self.base(), AGENTS_DIR@),
            path_components(r) == path_components(self.base()).push(AGENTS_DIR@),
    {
        proof {
            lemma_own_components();
        }
        join(&self.state_base, AGENTS_DIR)
    }

    /// The home of an instance.
    pub fn agent_home(&self, name: &InstanceName) -> (r: PathBuf)
        ensures
            r == home_path(self.base(), name@),
            path_components(r) == home_components(path_components(self.base()), name@),
    {
        let text = name.as_str();
        proof {
            lemma_name_is_plain(name@);
        }
        join(&self.agents_dir(), text)
    }

    /// The config of an instance.
    pub fn instance_config(&self, name: &InstanceName) -> (r: PathBuf)
        ensures
            r == joined(home_path(self.base(), name@), INSTANCE_CONFIG_FILE@),
            path_components(r) == home_components(path_components(self.base()), name@).push(
                INSTANCE_CONFIG_FILE@,
            ),
    {
        self.in_home(name, INSTANCE_CONFIG_FILE)
    }

    /// The effective config of an instance at its last start.
    pub fn effective_config_snapshot(&self, name: &InstanceName) -> (r: PathBuf)
        ensures
            r == joined(home_path(self.base(), name@), EFFECTIVE_CONFIG_SNAPSHOT_FILE@),
            path_components(r) == home_components(path_components(self.base()), name@).push(
                EFFECTIVE_CONFIG_SNAPSHOT_FILE@,
            ),
    {
        self.in_home(name, EFFECTIVE_CONFIG_SNAPSHOT_FILE)
    }

    /// The managed memory of an instance.
    pub fn agent_memory_dir(&self, name: &InstanceName) -> (r: PathBuf)
        ensures
            r == joined(home_path(self.base(), name@), MEMORY_DIR@),
            path_components(r) == home_components(path_components(self.base()), name@).push(
                MEMORY_DIR@,
            ),
    {
        self.in_home(name, MEMORY_DIR)
    }

    /// A file or directory of the engine in the home of an instance.
    pub(crate) fn in_home(&self, name: &InstanceName, file: &'static str) -> (r: PathBuf)
        requires
            home_file(file@),
        ensures
            r == joined(home_path(self.base(), name@), file@),
            path_components(r) == home_components(path_components(self.base()), name@).push(file@),
    {
        proof {
            lemma_own_components();
        }
        join(&self.agent_home(name), file)
    }

    /// A log of an instance, in the log directory of its home.
    pub(crate) fn in_logs(&self, name: &InstanceName, file: &'static str) -> (r: PathBuf)
        requires
            log_file(file@),
        ensures
            r == joined(joined(home_path(self.base(), name@), LOGS_DIR@), file@),
            path_components(r) == home_components(path_components(self.base()), name@).push(
                LOGS_DIR@,
            ).push(file@),
    {
        proof {
            lemma_own_components();
        }
        join(&self.in_home(name, LOGS_DIR), file)
    }
}

/// The snapshot of the adapter of an instance, in its home.
pub const ADAPTER_SNAPSHOT_FILE: &'static str = "adapter.json";

/// The logs of an instance, in its home.
pub const LOGS_DIR: &'static str = "logs";

/// The transitions of an instance, in its log directory.
pub const INSTANCE_LOG_FILE: &'static str = "instance.log";

/// The raw output of an instance, in its log directory.
pub const AGENT_LOG_FILE: &'static str = "agent.log";

/// The budget breaches of an instance, in its log directory.
pub const BREACH_LOG_FILE: &'static str = "breaches.log";

/// What the engine keeps in a home.
pub open spec fn home_file(text: Seq<char>) -> bool {
    text == INSTANCE_CONFIG_FILE@ || text == EFFECTIVE_CONFIG_SNAPSHOT_FILE@ || text
        == MEMORY_DIR@ || text == ADAPTER_SNAPSHOT_FILE@ || text == LOGS_DIR@
}

/// What the engine keeps in a log directory.
pub open spec fn log_file(text: Seq<char>) -> bool {
    text == INSTANCE_LOG_FILE@ || text == AGENT_LOG_FILE@ || text == BREACH_LOG_FILE@
}

/// The home of an instance.
pub open spec fn home_path(base: PathBuf, name: Seq<char>) -> PathBuf {
    joined(joined(base, AGENTS_DIR@), name)
}

/// The components of the home of an instance.
pub open spec fn home_components(base: Seq<Seq<char>>, name: Seq<char>) -> Seq<Seq<char>> {
    base.push(AGENTS_DIR@).push(name)
}

proof fn lemma_own_components()
    ensures
        plain_component(STATE_DB_FILE@),
        plain_component(SECRETS_FILE@),
        plain_component(AGENTS_DIR@),
        forall|text: Seq<char>| #[trigger] home_file(text) ==> plain_component(text),
        forall|text: Seq<char>| #[trigger] log_file(text) ==> plain_component(text),
{
    reveal_strlit("state.db");
    reveal_strlit("secrets.toml");
    reveal_strlit("agents");
    reveal_strlit("config.toml");
    reveal_strlit("effective-config.json");
    reveal_strlit("memory");
    reveal_strlit("adapter.json");
    reveal_strlit("logs");
    reveal_strlit("instance.log");
    reveal_strlit("agent.log");
    reveal_strlit("breaches.log");
}

/// The name of an instance is a single ordinary component of a path.
pub proof fn lemma_name_is_plain(name: Seq<char>)
    requires
        name_fault(name) is None,
    ensures
        plain_component(name),
{
    assert forall|i: int| 0 <= i < name.len() implies plain_char(#[trigger] name[i]) by {
        assert(crate::name::name_char(name[i]));
    }
    assert(crate::name::name_char(name[0]));
}

/// Different instances have different homes, and neither home lies in the other.
pub proof fn law_homes_are_disjoint(
    base: Seq<Seq<char>>,
    name: Seq<char>,
    other: Seq<char>,
    below: Seq<Seq<char>>,
)
    requires
        name != other,
    ensures
        home_components(base, name) != home_components(base, other),
        home_components(base, name) + below != home_components(base, other),
{
    let a = home_components(base, name);
    let b = home_components(base, other);
    assert(a[base.len() as int + 1] == name);
    assert(b[base.len() as int + 1] == other);
    assert((a + below)[base.len() as int + 1] == name);
}

/// Whether a character is an ASCII digit.
pub open spec fn digit_char(c: char) -> bool {
    '0' <= c && c <= '9'
}

/// The digits in a text, in their order.
pub open spec fn digits_in(text: Seq<char>) -> Seq<char>
    decreases text.len(),
{
    if text.len() == 0 {
        Seq::empty()
    } else if digit_char(text.last()) {
        digits_in(text.drop_last()).push(text.last())
    } else {
        digits_in(text.drop_last())
    }
}

fn digits_of(text: &str) -> (r: String)
    ensures
        r@ == digits_in(text@),
{
    let mut out = "".to_owned();
    proof {
        reveal_strlit("");
        assert(text@.take(0) =~= Seq::empty());
        assert(out@ =~= Seq::empty());
    }
    for c in it: text.chars()
        invariant
            it.seq() == text@,
            out@ == digits_in(text@.take(it.index())),
    {
        let ghost after = text@.take(it.index() + 1);
        assert(c == text@[it.index()]);
        assert(after.drop_last() =~= text@.take(it.index()));
        assert(after.last() == c);
        if '0' <= c && c <= '9' {
            out.push(c);
        }
    }
    assert(text@.take(text@.len() as int) =~= text@);
    out
}

/// The name of the temporary file for a write: the file's own name and what tells the
/// process, the thread and the write apart.
pub open spec fn temp_name(
    file_name: Seq<char>,
    process: nat,
    thread: Seq<char>,
    write: nat,
) -> Seq<char> {
    file_name + ".tmp-"@ + dec(process) + "-"@ + digits_in(thread) + "-"@ + dec(write)
}

/// What is to be done next for an atomic write.
#[derive(Clone, Copy, Debug, PartialEq, Eq, Structural)]
pub enum AtomicStep {
    /// Create the temporary file.
    Create,
    /// Write the bytes to it.
    Write,
    /// Have it written through to the disk.
    Sync,
    /// Give it the mode of the file it replaces.
    PreserveMode,
    /// Rename it over the file.
    Rename,
    /// Wait a little and rename it over the file once more.
    RenameAgain,
    /// Remove it, as far as that works; the write has failed.
    RemoveTemp,
    /// Nothing more: the bytes are in place.
    Written,
    /// Nothing more: the write has failed.
    Failed,
}

/// How a step of an atomic write went.
#[derive(Clone, Copy, Debug, PartialEq, Eq, Structural)]
pub enum AtomicOutcome {
    /// It worked.
    Worked,
    /// It did not.
    Failed,
    /// It did not, since another process holds the target open in a way that keeps it from
    /// being replaced.
    HeldOpen,
}

/// The step after one with an outcome.
pub open spec fn atomic_next(step: AtomicStep, outcome: AtomicOutcome) -> AtomicStep {
    match (step, outcome) {
        (AtomicStep::Create, AtomicOutcome::Worked) => AtomicStep::Write,
        (AtomicStep::Write, AtomicOutcome::Worked) => AtomicStep::Sync,
        (AtomicStep::Sync, AtomicOutcome::Worked) => AtomicStep::PreserveMode,
        (AtomicStep::PreserveMode, AtomicOutcome::Worked) => AtomicStep::Rename,
        (AtomicStep::Rename, AtomicOutcome::Worked) => AtomicStep::Written,
        (AtomicStep::Rename, AtomicOutcome::HeldOpen) => AtomicStep::RenameAgain,
        (AtomicStep::RenameAgain, AtomicOutcome::Worked) => AtomicStep::Written,
        (AtomicStep::RemoveTemp, _) => AtomicStep::Failed,
        (AtomicStep::Written, _) => AtomicStep::Written,
        (AtomicStep::Failed, _) => AtomicStep::Failed,
        _ => AtomicStep::RemoveTemp,
    }
}

/// The step after one with an outcome.
pub fn write_atomic_via(step: AtomicStep, outcome: AtomicOutcome) -> (r: AtomicStep)
    ensures
        r == atomic_next(step, outcome),
{
    match (step, outcome) {
        (AtomicStep::Create, AtomicOutcome::Worked) => AtomicStep::Write,
        (AtomicStep::Write, AtomicOutcome::Worked) => AtomicStep::Sync,
        (AtomicStep::Sync, AtomicOutcome::Worked) => AtomicStep::PreserveMode,
        (AtomicStep::PreserveMode, AtomicOutcome::Worked) => AtomicStep::Rename,
        (AtomicStep::Rename, AtomicOutcome::Worked) => AtomicStep::Written,
        (AtomicStep::Rename, AtomicOutcome::HeldOpen) => AtomicStep::RenameAgain,
        (AtomicStep::RenameAgain, AtomicOutcome::Worked) => AtomicStep::Written,
        (AtomicStep::RemoveTemp, _) => AtomicStep::Failed,
        (AtomicStep::Written, _) => AtomicStep::Written,
        (AtomicStep::Failed, _) => AtomicStep::Failed,
        _ => AtomicStep::RemoveTemp,
    }
}

/// Why an atomic write cannot begin.
#[derive(Debug, PartialEq, Eq)]
pub enum AtomicError {
    /// The target names no file.
    NoFileName {
        /// The target.
        target: String,
    },
}

impl AtomicError {
    /// The text of the error.
    pub open spec fn text(self) -> Seq<char> {
        match self {
            AtomicError::NoFileName { target } => no_file_text(target@),
        }
    }

    /// The text of the error.
    pub fn message(&self) -> (r: String)
        ensures
            r@ == self.text(),
    {
        match self {
            AtomicError::NoFileName { target } => {
                let mut out = "cannot write atomically: ".to_owned();
                out.append(target.as_str());
                out.append(" names no file");
                out
            },
        }
    }
}

/// What is said of a target that names no file.
pub open spec fn no_file_text(target: Seq<char>) -> Seq<char> {
    "cannot write atomically: "@ + target + " names no file"@
}

/// Begin an atomic write: the name of the temporary file beside the target and the
/// first step, or why there is none.
pub fn write_atomically(
    target: &str,
    file_name: Option<&str>,
    process: u32,
    thread: &str,
    write: u64,
) -> (r: Result<(String, AtomicStep), AtomicError>)
    ensures
        match r {
            Ok((temp, step)) => file_name matches Some(file) && temp@ == temp_name(
                file@,
                process as nat,
                thread@,
                write as nat,
            ) && step == AtomicStep::Create,
            Err(e) => file_name is None && (e matches AtomicError::NoFileName { target: named }
                && named@ == target@),
        },
{
    match file_name {
        None => Err(AtomicError::NoFileName { target: target.to_owned() }),
        Some(file) => {
            let mut temp = file.to_owned();
            temp.append(".tmp-");
            push_dec(&mut temp, process as u128);
            temp.append("-");
            temp.append(digits_of(thread).as_str());
            temp.append("-");
            push_dec(&mut temp, write as u128);
            Ok((temp, AtomicStep::Create))
        },
    }
}

proof fn lemma_digits_have_no_dash(text: Seq<char>)
    ensures
        forall|i: int| 0 <= i < digits_in(text).len() ==> digits_in(text)[i] != '-',
    decreases text.len(),
{
    if text.len() > 0 {
        let shorter = digits_in(text.drop_last());
        lemma_digits_have_no_dash(text.drop_last());
        assert forall|i: int| 0 <= i < digits_in(text).len() implies digits_in(text)[i] != '-' by {
            if i < shorter.len() {
                assert(digits_in(text)[i] == shorter[i]);
            }
        }
    }
}

/// Writes to one file do not share a temporary file: two temporary names for it are the
/// same only where process, thread digits and write number are.
pub proof fn law_temp_names_do_not_collide(
    file_name: Seq<char>,
    process: nat,
    thread: Seq<char>,
    write: nat,
    process2: nat,
    thread2: Seq<char>,
    write2: nat,
)
    requires
        temp_name(file_name, process, thread, write) == temp_name(
            file_name,
            process2,
            thread2,
            write2,
        ),
    ensures
        process == process2,
        digits_in(thread) == digits_in(thread2),
        write == write2,
{
    reveal_strlit(".tmp-");
    reveal_strlit("-");
    assert("-"@ =~= seq!['-']);
    let lead = file_name + ".tmp-"@;
    let left = temp_name(file_name, process, thread, write);
    let right = temp_name(file_name, process2, thread2, write2);
    let rest = digits_in(thread) + seq!['-'] + dec(write);
    let rest2 = digits_in(thread2) + seq!['-'] + dec(write2);
    assert(left.subrange(lead.len() as int, left.len() as int) =~= dec(process) + seq!['-'] + rest);
    assert(right.subrange(lead.len() as int, right.len() as int) =~= dec(process2) + seq!['-']
        + rest2);
    crate::text::lemma_dec_has_no_dash(process);
    crate::text::lemma_dec_has_no_dash(process2);
    crate::text::lemma_split_at_dash(dec(process), rest, dec(process2), rest2);
    lemma_digits_have_no_dash(thread);
    lemma_digits_have_no_dash(thread2);
    crate::text::lemma_split_at_dash(
        digits_in(thread),
        dec(write),
        digits_in(thread2),
        dec(write2),
    );
    crate::text::lemma_dec_injective(process, process2);
    crate::text::lemma_dec_injective(write, write2);
}

/// The target is touched by a rename alone, and that comes only after the whole of the new
/// contents is on disk; a write that fails anywhere goes on to remove its temporary file.
pub proof fn law_target_changes_at_once_or_not_at_all(step: AtomicStep, outcome: AtomicOutcome)
    ensures
        atomic_next(step, outcome) == AtomicStep::Rename ==> step == AtomicStep::PreserveMode
            && outcome == AtomicOutcome::Worked,
        atomic_next(step, outcome) == AtomicStep::PreserveMode ==> step == AtomicStep::Sync
            && outcome == AtomicOutcome::Worked,
        atomic_next(step, outcome) == AtomicStep::Sync ==> step == AtomicStep::Write && outcome
            == AtomicOutcome::Worked,
        atomic_next(step, outcome) == AtomicStep::Written && step != AtomicStep::Written ==> (step
            == AtomicStep::Rename || step == AtomicStep::RenameAgain) && outcome
            == AtomicOutcome::Worked,
        atomic_next(step, outcome) == AtomicStep::Failed && step != AtomicStep::Failed ==> step
            == AtomicStep::RemoveTemp,
{
}

/// A rename is tried once more, and no more often, and only where another process held the
/// target open.
pub proof fn law_a_held_target_is_tried_once_more(step: AtomicStep, outcome: AtomicOutcome)
    ensures
        atomic_next(step, outcome) == AtomicStep::RenameAgain <==> step == AtomicStep::Rename
            && outcome == AtomicOutcome::HeldOpen,
        step == AtomicStep::RenameAgain && outcome != AtomicOutcome::Worked ==> atomic_next(
            step,
            outcome,
        ) == AtomicStep::RemoveTemp,
{
}

/// Where the files are kept: at the base given, whatever else there is; else at the one that the
/// environment names, if it names any, which is refused where it is not absolute; else at the
/// platform's, if it has one.
pub proof fn law_the_base_is_chosen_in_order(
    given: PathBuf,
    environment: Option<StateDirEnv>,
    platform: Option<PathBuf>,
)
    ensures
        chosen_base(Some(given), environment, platform) == Ok::<PathBuf, PathError>(given),
        environment matches Some(env) ==> (env.text@.len() > 0 ==> (if env.absolute {
            chosen_base(None, environment, platform) == Ok::<PathBuf, PathError>(env.path)
        } else {
            chosen_base(None, environment, platform) == Err::<PathBuf, PathError>(
                PathError::RelativeStateDir { value: env.text },
            )
        })),
        !(environment matches Some(env) && env.text@.len() > 0) ==> chosen_base(
            None,
            environment,
            platform,
        ) == match platform {
            Some(base) => Ok::<PathBuf, PathError>(base),
            None => Err(PathError::NoStateDir),
        },
{
}

/// A write that goes well creates its temporary file, writes it, has it on disk, gives it the mode
/// and renames it, in this order, and is done; one that fails at any of these removes the
/// temporary file and has failed.
pub proof fn law_an_atomic_write_goes_through_its_steps(failed: AtomicOutcome)
    requires
        failed != AtomicOutcome::Worked,
    ensures
        ({
            let worked = AtomicOutcome::Worked;
            let write = atomic_next(AtomicStep::Create, worked);
            let sync = atomic_next(write, worked);
            let mode = atomic_next(sync, worked);
            let rename = atomic_next(mode, worked);
            let again = atomic_next(rename, AtomicOutcome::HeldOpen);
            &&& write == AtomicStep::Write
            &&& sync == AtomicStep::Sync
            &&& mode == AtomicStep::PreserveMode
            &&& rename == AtomicStep::Rename
            &&& atomic_next(rename, worked) == AtomicStep::Written
            &&& again == AtomicStep::RenameAgain
            &&& atomic_next(again, worked) == AtomicStep::Written
            &&& atomic_next(AtomicStep::Create, failed) == AtomicStep::RemoveTemp
            &&& atomic_next(write, failed) == AtomicStep::RemoveTemp
            &&& atomic_next(sync, failed) == AtomicStep::RemoveTemp
            &&& atomic_next(mode, failed) == AtomicStep::RemoveTemp
            &&& atomic_next(rename, AtomicOutcome::Failed) == AtomicStep::RemoveTemp
            &&& atomic_next(again, failed) == AtomicStep::RemoveTemp
            &&& atomic_next(AtomicStep::RemoveTemp, worked) == AtomicStep::Failed
            &&& atomic_next(AtomicStep::RemoveTemp, failed) == AtomicStep::Failed
        }),
{
}

/// The digits of a text are those of its parts, one after the other; a digit is kept and any other
/// character is not.
pub proof fn law_digits_are_kept_in_order(a: Seq<char>, b: Seq<char>, c: char)
    ensures
        digits_in(a + b) == digits_in(a) + digits_in(b),
        digits_in(seq![c]) == if '0' <= c && c <= '9' {
            seq![c]
        } else {
            Seq::empty()
        },
    decreases b.len(),
{
    assert(seq![c].drop_last() =~= Seq::<char>::empty());
    assert(digits_in(Seq::<char>::empty()) =~= Seq::<char>::empty());
    assert(Seq::<char>::empty().push(c) =~= seq![c]);
    if b.len() == 0 {
        assert(a + b =~= a);
        assert(digits_in(a) + digits_in(b) =~= digits_in(a));
    } else {
        assert((a + b).drop_last() =~= a + b.drop_last());
        assert((a + b).last() == b.last());
        law_digits_are_kept_in_order(a, b.drop_last(), c);
        assert(digits_in(a + b) =~= digits_in(a) + digits_in(b));
    }
}

} // verus!
