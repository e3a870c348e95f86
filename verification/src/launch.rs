//! The argument vector of a new session.

use crate::decimal::{
    decimal_text, digit_value, format_decimal, lemma_decimal_round_trip, lemma_decimal_text_chars,
};
use crate::flags::{
    lemma_decode_token_of_encoded, lemma_letters, texts, token_names, tokens_name, CaffeinateFlags,
};
use crate::session::{deadline_of, end_of, first_at, lemma_first_position, timeout_option};
use vstd::prelude::*;
use vstd::string::*;

verus! {

/// Where the inhibition utility is installed.
pub const UTILITY_PATH: &'static str = "/usr/bin/caffeinate";

/// The arguments for a session with these flags and this length in seconds:
/// the flags as one short-option token unless the set is empty, then the
/// timeout option and the seconds in decimal unless the session is indefinite.
pub open spec fn launch_args_of(flags: CaffeinateFlags, seconds: Option<i64>) -> Seq<Seq<char>> {
    (if flags.spec_any() {
        seq![flags.token()]
    } else {
        Seq::<Seq<char>>::empty()
    }) + (match seconds {
        Some(s) => seq![timeout_option(), decimal_text(s as int)],
        None => Seq::<Seq<char>>::empty(),
    })
}

/// Builds the argument vector for the inhibition utility.
pub fn launch_args(flags: CaffeinateFlags, seconds: Option<i64>) -> (args: Vec<String>)
    ensures
        texts(args@) == launch_args_of(flags, seconds),
{
    let mut args: Vec<String> = Vec::new();
    if flags.any() {
        proof {
            reveal_strlit("-");
        }
        let mut token = String::from_str("-");
        token.append(flags.encode().as_str());
        assert(token@ =~= flags.token());
        args.push(token);
    }
    if let Some(s) = seconds {
        args.push(String::from_str("-t"));
        args.push(format_decimal(s));
    }
    assert(texts(args@) =~= launch_args_of(flags, seconds));
    args
}

/// The flags read back from the arguments of a launch are the flags it was
/// built from, whatever its length.
pub proof fn lemma_launch_args_decode(flags: CaffeinateFlags, seconds: Option<i64>)
    ensures
        CaffeinateFlags::decoded(launch_args_of(flags, seconds)) == flags,
{
    let args = launch_args_of(flags, seconds);
    lemma_decode_token_of_encoded(flags);
    reveal_strlit("-t");
    assert forall|c: char|
        c == 'd' || c == 'i' || c == 'm' || c == 's' implies tokens_name(args, c) == (
    flags.spec_any() && token_names(flags.token(), c)) by {
        if flags.spec_any() && token_names(flags.token(), c) {
            assert(args[0] == flags.token());
        }
        if tokens_name(args, c) {
            let k = choose|k: int| 0 <= k < args.len() && token_names(#[trigger] args[k], c);
            let first: int = if flags.spec_any() { 1 } else { 0 };
            if k >= first {
                let j = choose|j: int| 1 <= j < args[k].len() && args[k][j] == c;
                if k == first {
                    assert(args[k] == timeout_option());
                    assert(args[k][j] == 't');
                } else {
                    let s = seconds->0;
                    assert(args[k] == decimal_text(s as int));
                    lemma_decimal_text_chars(s as int);
                    assert(args[k][j] == '-' || digit_value(args[k][j]) is Some);
                }
            }
        }
    }
}

/// The deadline read back from the arguments of a launch is the start time
/// plus the seconds it was built with, and there is none for an indefinite one.
pub proof fn lemma_launch_args_deadline(
    flags: CaffeinateFlags,
    seconds: Option<i64>,
    start_time: u64,
)
    ensures
        deadline_of(launch_args_of(flags, seconds), start_time) == (match seconds {
            Some(s) => end_of(start_time, s),
            None => None,
        }),
{
    let args = launch_args_of(flags, seconds);
    let wanted = timeout_option();
    let first: int = if flags.spec_any() { 1 } else { 0 };
    reveal_strlit("-t");
    lemma_letters(flags);
    if flags.spec_any() {
        let token = flags.token();
        assert(args[0] == token);
        if token == wanted {
            assert(token[1] == 't');
            assert(flags.letters()[0] == 't');
        }
    }
    match seconds {
        Some(s) => {
            assert(args[first] == wanted);
            assert(first_at(args, wanted, first));
            lemma_first_position(args, wanted, first);
            assert(args[first + 1] == decimal_text(s as int));
            lemma_decimal_round_trip(s);
        },
        None => {
            assert forall|k: int| !first_at(args, wanted, k) by {
                if 0 <= k < args.len() {
                    assert(args[k] == flags.token());
                }
            }
        },
    }
}

} // verus!
