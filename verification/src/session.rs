//! Discovery of running sessions in a snapshot of the process table.

use crate::decimal::{decimal_value, parse_decimal};
use crate::flags::{texts, CaffeinateFlags};
use vstd::prelude::*;
use vstd::string::*;

verus! {

/// What the process table tells of one process.
#[derive(Clone, Debug)]
pub struct ProcessInfo {
    pub pid: u32,
    /// The executable's name.
    pub name: String,
    /// The full argument vector.
    pub args: Vec<String>,
    /// When the process started, in seconds since the epoch.
    pub start_time: u64,
}

/// A running instance of the inhibition utility.
#[derive(Clone, Copy, Debug, PartialEq, Eq, Structural)]
pub struct Session {
    pub pid: u32,
    /// The capabilities its arguments ask for.
    pub flags: CaffeinateFlags,
    /// When it ends, in seconds since the epoch; `None` if it runs indefinitely.
    pub deadline: Option<i64>,
}

/// The executable name of the inhibition utility.
pub open spec fn utility_name() -> Seq<char> {
    "caffeinate"@
}

/// The argument that announces a session's length in seconds.
pub open spec fn timeout_option() -> Seq<char> {
    "-t"@
}

/// `i` is the first position of `args` that holds `wanted`.
pub open spec fn first_at(args: Seq<Seq<char>>, wanted: Seq<char>, i: int) -> bool {
    &&& 0 <= i < args.len()
    &&& args[i] == wanted
    &&& forall|j: int| 0 <= j < i ==> #[trigger] args[j] != wanted
}

/// The first position of `args` that holds `wanted`, if there is one.
pub open spec fn position_of(args: Seq<Seq<char>>, wanted: Seq<char>) -> Option<int> {
    if exists|i: int| first_at(args, wanted, i) {
        Some(choose|i: int| first_at(args, wanted, i))
    } else {
        None
    }
}

/// The instant `seconds` after `start_time`, if 64 bits hold it.
pub open spec fn end_of(start_time: u64, seconds: i64) -> Option<i64> {
    if start_time + seconds <= i64::MAX {
        Some((start_time + seconds) as i64)
    } else {
        None
    }
}

/// The deadline that an argument vector and a start time give: the start
/// time plus the integer that follows the first timeout option. There is none
/// without that option, or where no integer follows it.
pub open spec fn deadline_of(args: Seq<Seq<char>>, start_time: u64) -> Option<i64> {
    match position_of(args, timeout_option()) {
        None => None,
        Some(i) => if i + 1 < args.len() {
            match decimal_value(args[i + 1]) {
                Some(seconds) => end_of(start_time, seconds),
                None => None,
            }
        } else {
            None
        },
    }
}

pub open spec fn is_utility(p: ProcessInfo) -> bool {
    p.name@ == utility_name()
}

/// The session that a process of the utility is.
pub open spec fn session_of(p: ProcessInfo) -> Session {
    Session {
        pid: p.pid,
        flags: CaffeinateFlags::decoded(texts(p.args@)),
        deadline: deadline_of(texts(p.args@), p.start_time),
    }
}

/// The sessions among the processes, in the order of the processes.
pub open spec fn sessions_of(processes: Seq<ProcessInfo>) -> Seq<Session>
    decreases processes.len(),
{
    if processes.len() == 0 {
        Seq::<Session>::empty()
    } else if is_utility(processes.last()) {
        sessions_of(processes.drop_last()).push(session_of(processes.last()))
    } else {
        sessions_of(processes.drop_last())
    }
}

/// A first position is the only first position.
pub proof fn lemma_first_position(args: Seq<Seq<char>>, wanted: Seq<char>, i: int)
    requires
        first_at(args, wanted, i),
    ensures
        position_of(args, wanted) == Some(i),
{
    let k = choose|k: int| first_at(args, wanted, k);
    if k < i {
        assert(args[k] != wanted);
    }
    if i < k {
        assert(args[i] != wanted);
    }
}

/// The first position at which `wanted` stands among `args`.
pub fn find_first(args: &[String], wanted: &str) -> (found: Option<usize>)
    ensures
        match found {
            Some(i) => i < args.len() && position_of(texts(args@), wanted@) == Some(i as int),
            None => position_of(texts(args@), wanted@) is None,
        },
{
    let wanted_text = String::from_str(wanted);
    let mut i: usize = 0;
    while i < args.len()
        invariant
            i <= args.len(),
            wanted_text@ == wanted@,
            forall|j: int| 0 <= j < i ==> #[trigger] texts(args@)[j] != wanted@,
        decreases args.len() - i,
    {
        if args[i] == wanted_text {
            proof {
                assert(texts(args@)[i as int] == wanted@);
                lemma_first_position(texts(args@), wanted@, i as int);
            }
            return Some(i);
        }
        assert(texts(args@)[i as int] == args@[i as int]@);
        i += 1;
    }
    assert forall|k: int| !first_at(texts(args@), wanted@, k) by {
        if 0 <= k < args.len() {
            assert(texts(args@)[k] != wanted@);
        }
    }
    None
}

/// The instant `seconds` after `start_time`, unless it is past what 64 bits hold.
pub fn end_after(start_time: u64, seconds: i64) -> (end: Option<i64>)
    ensures
        end == end_of(start_time, seconds),
{
    let sum: i128 = start_time as i128 + seconds as i128;
    if sum <= i64::MAX as i128 {
        Some(sum as i64)
    } else {
        None
    }
}

/// When a process with these arguments and this start time ends, if its
/// arguments limit it.
pub fn deadline(args: &[String], start_time: u64) -> (end: Option<i64>)
    ensures
        end == deadline_of(texts(args@), start_time),
{
    match find_first(args, "-t") {
        None => None,
        Some(i) => {
            if i + 1 < args.len() {
                assert(texts(args@)[i + 1] == args@[i + 1]@);
                match parse_decimal(args[i + 1].as_str()) {
                    Some(seconds) => end_after(start_time, seconds),
                    None => None,
                }
            } else {
                None
            }
        },
    }
}

impl Session {
    /// The session that a process of the utility is: its flags decoded from
    /// its arguments, its deadline from its timeout option and start time.
    pub fn from_process(process: &ProcessInfo) -> (session: Session)
        ensures
            session == session_of(*process),
    {
        Session {
            pid: process.pid,
            flags: CaffeinateFlags::decode(process.args.as_slice()),
            deadline: deadline(process.args.as_slice(), process.start_time),
        }
    }
}

/// The running sessions among `processes`: one for each process whose
/// executable name is the utility's, in the order of the snapshot.
pub fn scan(processes: &[ProcessInfo]) -> (sessions: Vec<Session>)
    ensures
        sessions@ == sessions_of(processes@),
{
    let utility = String::from_str("caffeinate");
    let mut sessions: Vec<Session> = Vec::new();
    let mut i: usize = 0;
    while i < processes.len()
        invariant
            i <= processes.len(),
            utility@ == utility_name(),
            sessions@ == sessions_of(processes@.take(i as int)),
        decreases processes.len() - i,
    {
        assert(processes@.take(i + 1).drop_last() =~= processes@.take(i as int));
        if processes[i].name == utility {
            sessions.push(Session::from_process(&processes[i]));
        }
        i += 1;
    }
    assert(processes@.take(i as int) =~= processes@);
    sessions
}

} // verus!
