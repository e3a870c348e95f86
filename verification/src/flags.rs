//! The set of sleep-inhibition capabilities and its short-option codec.

use vstd::prelude::*;
use vstd::string::*;

verus! {

/// Which subsystems are kept from entering a low-power state.
///
/// The canonical order of the members is display, idle, disk, sleep; the
/// codec and the readable listing both follow it.
#[derive(Clone, Copy, Debug, PartialEq, Eq, Structural)]
pub struct CaffeinateFlags {
    pub display: bool,
    pub idle: bool,
    pub disk: bool,
    pub sleep: bool,
}

/// The option letter of the member at `index` in canonical order.
pub open spec fn letter_at(index: int) -> char {
    if index == 0 {
        'd'
    } else if index == 1 {
        'i'
    } else if index == 2 {
        'm'
    } else {
        's'
    }
}

/// The readable name of the member at `index` in canonical order.
pub open spec fn name_at(index: int) -> Seq<char> {
    if index == 0 {
        "display"@
    } else if index == 1 {
        "idle"@
    } else if index == 2 {
        "disk"@
    } else {
        "sleep"@
    }
}

/// A token counts as a short-option group when it starts with exactly one dash.
pub open spec fn is_short_group(token: Seq<char>) -> bool {
    token.len() >= 1 && token[0] == '-' && !(token.len() >= 2 && token[1] == '-')
}

/// `c` occurs in `token` at position `from` or later.
pub open spec fn occurs_from(token: Seq<char>, from: int, c: char) -> bool {
    exists|j: int| from <= j < token.len() && token[j] == c
}

/// `token` is a short-option group that names the letter `c` after its dash.
pub open spec fn token_names(token: Seq<char>, c: char) -> bool {
    is_short_group(token) && occurs_from(token, 1, c)
}

/// Some token of `tokens` is a short-option group that names the letter `c`.
pub open spec fn tokens_name(tokens: Seq<Seq<char>>, c: char) -> bool {
    exists|k: int| 0 <= k < tokens.len() && token_names(#[trigger] tokens[k], c)
}

/// The character sequences held by a sequence of strings.
pub open spec fn texts(strings: Seq<String>) -> Seq<Seq<char>> {
    Seq::new(strings.len(), |i: int| strings[i]@)
}

/// The parts in order, with `sep` between each two neighbours.
pub open spec fn joined(parts: Seq<Seq<char>>, sep: Seq<char>) -> Seq<char>
    decreases parts.len(),
{
    if parts.len() == 0 {
        Seq::<char>::empty()
    } else if parts.len() == 1 {
        parts[0]
    } else {
        joined(parts.drop_last(), sep) + sep + parts.last()
    }
}

/// The option letter of the member at `index`, or `None` past the last member.
pub fn flag_char(index: u8) -> (c: Option<char>)
    ensures
        c == (if index < 4 { Some(letter_at(index as int)) } else { None }),
{
    match index {
        0 => Some('d'),
        1 => Some('i'),
        2 => Some('m'),
        3 => Some('s'),
        _ => None,
    }
}

/// The readable name of the member at `index`, or `None` past the last member.
pub fn flag_name(index: u8) -> (name: Option<&'static str>)
    ensures
        index < 4 ==> name is Some && name->0@ == name_at(index as int),
        index >= 4 ==> name is None,
{
    match index {
        0 => Some("display"),
        1 => Some("idle"),
        2 => Some("disk"),
        3 => Some("sleep"),
        _ => None,
    }
}

impl CaffeinateFlags {
    /// The set with no member.
    pub open spec fn spec_empty() -> CaffeinateFlags {
        CaffeinateFlags { display: false, idle: false, disk: false, sleep: false }
    }

    /// The set that holds exactly the member at `index`; empty past the last member.
    pub open spec fn spec_from_index(index: int) -> CaffeinateFlags {
        CaffeinateFlags {
            display: index == 0,
            idle: index == 1,
            disk: index == 2,
            sleep: index == 3,
        }
    }

    /// Member-wise disjunction.
    pub open spec fn spec_union(self, other: CaffeinateFlags) -> CaffeinateFlags {
        CaffeinateFlags {
            display: self.display || other.display,
            idle: self.idle || other.idle,
            disk: self.disk || other.disk,
            sleep: self.sleep || other.sleep,
        }
    }

    /// At least one member is set.
    pub open spec fn spec_any(self) -> bool {
        self.display || self.idle || self.disk || self.sleep
    }

    /// The member at `index` in canonical order is set.
    pub open spec fn holds(self, index: int) -> bool {
        ||| index == 0 && self.display
        ||| index == 1 && self.idle
        ||| index == 2 && self.disk
        ||| index == 3 && self.sleep
    }

    /// The letters of the set members, in canonical order.
    pub open spec fn letters(self) -> Seq<char> {
        (if self.display { seq!['d'] } else { Seq::<char>::empty() })
            + (if self.idle { seq!['i'] } else { Seq::<char>::empty() })
            + (if self.disk { seq!['m'] } else { Seq::<char>::empty() })
            + (if self.sleep { seq!['s'] } else { Seq::<char>::empty() })
    }

    /// The single short-option token that carries this set: a dash, then the letters.
    pub open spec fn token(self) -> Seq<char> {
        seq!['-'] + self.letters()
    }

    /// The names of the set members among the first `n`, in canonical order.
    pub open spec fn names_below(self, n: int) -> Seq<Seq<char>>
        decreases n,
    {
        if n <= 0 {
            Seq::<Seq<char>>::empty()
        } else if self.holds(n - 1) {
            self.names_below(n - 1).push(name_at(n - 1))
        } else {
            self.names_below(n - 1)
        }
    }

    /// The names of the set members, in canonical order, separated by a
    /// comma and a space.
    pub open spec fn listing(self) -> Seq<char> {
        joined(self.names_below(4), ", "@)
    }

    /// The members that one token sets.
    pub open spec fn of_token(token: Seq<char>) -> CaffeinateFlags {
        CaffeinateFlags {
            display: token_names(token, 'd'),
            idle: token_names(token, 'i'),
            disk: token_names(token, 'm'),
            sleep: token_names(token, 's'),
        }
    }

    /// The members that a token sequence sets: each one that some
    /// short-option group among the tokens names.
    pub open spec fn decoded(tokens: Seq<Seq<char>>) -> CaffeinateFlags {
        CaffeinateFlags {
            display: tokens_name(tokens, 'd'),
            idle: tokens_name(tokens, 'i'),
            disk: tokens_name(tokens, 'm'),
            sleep: tokens_name(tokens, 's'),
        }
    }

    /// The set with no member.
    pub fn empty() -> (flags: CaffeinateFlags)
        ensures
            flags == Self::spec_empty(),
            !flags.spec_any(),
    {
        CaffeinateFlags { display: false, idle: false, disk: false, sleep: false }
    }

    /// The set that holds the member at `index` in canonical order and nothing else.
    pub fn from_index(index: u8) -> (flags: CaffeinateFlags)
        ensures
            flags == Self::spec_from_index(index as int),
    {
        CaffeinateFlags {
            display: index == 0,
            idle: index == 1,
            disk: index == 2,
            sleep: index == 3,
        }
    }

    /// The set built from four independent switches.
    pub fn from_switches(display: bool, idle: bool, disk: bool, sleep: bool) -> (flags: Self)
        ensures
            flags == (CaffeinateFlags { display, idle, disk, sleep }),
    {
        let mut flags = CaffeinateFlags::empty();
        if display {
            flags = flags.union(CaffeinateFlags::from_index(0));
        }
        if idle {
            flags = flags.union(CaffeinateFlags::from_index(1));
        }
        if disk {
            flags = flags.union(CaffeinateFlags::from_index(2));
        }
        if sleep {
            flags = flags.union(CaffeinateFlags::from_index(3));
        }
        flags
    }

    /// The set of the members that `self` or `other` holds.
    pub fn union(self, other: CaffeinateFlags) -> (flags: CaffeinateFlags)
        ensures
            flags == self.spec_union(other),
    {
        CaffeinateFlags {
            display: self.display || other.display,
            idle: self.idle || other.idle,
            disk: self.disk || other.disk,
            sleep: self.sleep || other.sleep,
        }
    }

    /// Returns true if any flag is set.
    pub fn any(&self) -> (b: bool)
        ensures
            b == self.spec_any(),
            b == (*self != Self::spec_empty()),
    {
        self.display || self.idle || self.disk || self.sleep
    }

    /// Whether the member at `index` in canonical order is set.
    pub fn contains_index(&self, index: u8) -> (b: bool)
        ensures
            b == self.holds(index as int),
    {
        match index {
            0 => self.display,
            1 => self.idle,
            2 => self.disk,
            3 => self.sleep,
            _ => false,
        }
    }

    /// The letters of the set members in canonical order, as one string.
    pub fn encode(&self) -> (s: String)
        ensures
            s@ == self.letters(),
    {
        proof {
            reveal_strlit("d");
            reveal_strlit("i");
            reveal_strlit("m");
            reveal_strlit("s");
        }
        let mut s = String::new();
        if self.display {
            s.append("d");
        }
        if self.idle {
            s.append("i");
        }
        if self.disk {
            s.append("m");
        }
        if self.sleep {
            s.append("s");
        }
        assert(s@ =~= self.letters());
        s
    }

    /// The readable listing of the set: the names of its members in
    /// canonical order, separated by a comma and a space.
    pub fn describe(&self) -> (s: String)
        ensures
            s@ == self.listing(),
    {
        let mut s = String::new();
        let mut first = true;
        let mut index: u8 = 0;
        while index < 4
            invariant
                index <= 4,
                first == (self.names_below(index as int).len() == 0),
                s@ == joined(self.names_below(index as int), ", "@),
            decreases 4 - index,
        {
            if self.contains_index(index) {
                if let Some(name) = flag_name(index) {
                    let ghost before = self.names_below(index as int);
                    assert(before.push(name@).drop_last() =~= before);
                    if !first {
                        s.append(", ");
                    }
                    s.append(name);
                    first = false;
                    assert(s@ =~= joined(before.push(name@), ", "@));
                }
            }
            index += 1;
        }
        s
    }

    /// The members that one token sets: none unless the token starts with
    /// exactly one dash, else each member whose letter follows the dash.
    pub fn from_token(token: &str) -> (flags: CaffeinateFlags)
        ensures
            flags == Self::of_token(token@),
    {
        let n = token.unicode_len();
        let mut flags = CaffeinateFlags::empty();
        if n == 0 || token.get_char(0) != '-' {
            return flags;
        }
        if n >= 2 && token.get_char(1) == '-' {
            return flags;
        }
        let mut index: u8 = 0;
        while index < 4
            invariant
                index <= 4,
                is_short_group(token@),
                flags.display == (index > 0 && occurs_from(token@, 1, 'd')),
                flags.idle == (index > 1 && occurs_from(token@, 1, 'i')),
                flags.disk == (index > 2 && occurs_from(token@, 1, 'm')),
                flags.sleep == (index > 3 && occurs_from(token@, 1, 's')),
            decreases 4 - index,
        {
            if let Some(c) = flag_char(index) {
                if contains_from(token, 1, c) {
                    flags = flags.union(CaffeinateFlags::from_index(index));
                }
            }
            index += 1;
        }
        flags
    }

    /// The members that an argument vector sets. Tokens that do not start
    /// with exactly one dash are passed over; the others add up.
    pub fn decode(tokens: &[String]) -> (flags: CaffeinateFlags)
        ensures
            flags == Self::decoded(texts(tokens@)),
    {
        let mut flags = CaffeinateFlags::empty();
        let mut i: usize = 0;
        while i < tokens.len()
            invariant
                i <= tokens.len(),
                flags == Self::decoded(texts(tokens@).take(i as int)),
            decreases tokens.len() - i,
        {
            let found = CaffeinateFlags::from_token(tokens[i].as_str());
            proof {
                let all = texts(tokens@);
                assert(all[i as int] == tokens@[i as int]@);
                lemma_tokens_name_step(all, i as int, 'd');
                lemma_tokens_name_step(all, i as int, 'i');
                lemma_tokens_name_step(all, i as int, 'm');
                lemma_tokens_name_step(all, i as int, 's');
            }
            flags = flags.union(found);
            i += 1;
        }
        assert(texts(tokens@).take(i as int) =~= texts(tokens@));
        flags
    }
}

/// True when `c` occurs in `text` at position `from` or later.
fn contains_from(text: &str, from: usize, c: char) -> (found: bool)
    ensures
        found == occurs_from(text@, from as int, c),
{
    let n = text.unicode_len();
    let mut j = from;
    while j < n
        invariant
            n == text@.len(),
            from <= j,
            forall|k: int| from <= k < j ==> text@[k] != c,
        decreases n - j,
    {
        if text.get_char(j) == c {
            return true;
        }
        j += 1;
    }
    false
}

/// Taking one more token adds exactly what that token names.
proof fn lemma_tokens_name_step(tokens: Seq<Seq<char>>, i: int, c: char)
    requires
        0 <= i < tokens.len(),
    ensures
        tokens_name(tokens.take(i + 1), c) == (tokens_name(tokens.take(i), c)
            || token_names(tokens[i], c)),
{
    let shorter = tokens.take(i);
    let longer = tokens.take(i + 1);
    if tokens_name(shorter, c) {
        let k = choose|k: int| 0 <= k < shorter.len() && token_names(#[trigger] shorter[k], c);
        assert(longer[k] == shorter[k]);
    }
    if token_names(tokens[i], c) {
        assert(longer[i] == tokens[i]);
    }
    if tokens_name(longer, c) {
        let k = choose|k: int| 0 <= k < longer.len() && token_names(#[trigger] longer[k], c);
        if k < i {
            assert(shorter[k] == longer[k]);
        } else {
            assert(longer[k] == tokens[i]);
        }
    }
}

/// The letters of a set are among the four option letters, and each of
/// those is among them exactly when its member is set.
pub proof fn lemma_letters(flags: CaffeinateFlags)
    ensures
        forall|j: int|
            0 <= j < flags.letters().len() ==> {
                let c = #[trigger] flags.letters()[j];
                c == 'd' || c == 'i' || c == 'm' || c == 's'
            },
        flags.letters().contains('d') == flags.display,
        flags.letters().contains('i') == flags.idle,
        flags.letters().contains('m') == flags.disk,
        flags.letters().contains('s') == flags.sleep,
{
    let a = if flags.display { seq!['d'] } else { Seq::<char>::empty() };
    let b = if flags.idle { seq!['i'] } else { Seq::<char>::empty() };
    let c = if flags.disk { seq!['m'] } else { Seq::<char>::empty() };
    let d = if flags.sleep { seq!['s'] } else { Seq::<char>::empty() };
    let l = flags.letters();
    assert(l == a + b + c + d);
    if flags.display {
        assert(l[0] == 'd');
    }
    if flags.idle {
        assert(l[a.len() as int] == 'i');
    }
    if flags.disk {
        assert(l[(a.len() + b.len()) as int] == 'm');
    }
    if flags.sleep {
        assert(l[(a.len() + b.len() + c.len()) as int] == 's');
    }
}

/// Decoding the single token that carries a set gives the set back.
pub proof fn lemma_decode_token_of_encoded(flags: CaffeinateFlags)
    ensures
        CaffeinateFlags::of_token(flags.token()) == flags,
        CaffeinateFlags::decoded(seq![flags.token()]) == flags,
{
    let t = flags.token();
    let l = flags.letters();
    lemma_letters(flags);
    assert(t[0] == '-');
    assert(is_short_group(t)) by {
        if t.len() >= 2 {
            assert(t[1] == l[0]);
        }
    }
    assert forall|c: char| occurs_from(t, 1, c) == l.contains(c) by {
        if occurs_from(t, 1, c) {
            let j = choose|j: int| 1 <= j < t.len() && t[j] == c;
            assert(l[j - 1] == c);
        }
        if l.contains(c) {
            let j = choose|j: int| 0 <= j < l.len() && l[j] == c;
            assert(t[j + 1] == c);
        }
    }
    let ts = seq![t];
    assert forall|c: char| tokens_name(ts, c) == token_names(t, c) by {
        assert(ts[0] == t);
    }
}

/// Tokens add up: what two argument vectors set one after the other is the
/// union of what each sets, and no token sets nothing.
pub proof fn lemma_decoded_concat(a: Seq<Seq<char>>, b: Seq<Seq<char>>)
    ensures
        CaffeinateFlags::decoded(a + b) == CaffeinateFlags::decoded(a).spec_union(
            CaffeinateFlags::decoded(b),
        ),
        CaffeinateFlags::decoded(Seq::<Seq<char>>::empty()) == CaffeinateFlags::spec_empty(),
{
    let ab = a + b;
    assert forall|c: char| tokens_name(ab, c) == (tokens_name(a, c) || tokens_name(b, c)) by {
        if tokens_name(a, c) {
            let k = choose|k: int| 0 <= k < a.len() && token_names(#[trigger] a[k], c);
            assert(ab[k] == a[k]);
        }
        if tokens_name(b, c) {
            let k = choose|k: int| 0 <= k < b.len() && token_names(#[trigger] b[k], c);
            assert(ab[a.len() + k] == b[k]);
        }
        if tokens_name(ab, c) {
            let k = choose|k: int| 0 <= k < ab.len() && token_names(#[trigger] ab[k], c);
            if k < a.len() {
                assert(a[k] == ab[k]);
            } else {
                assert(b[k - a.len()] == ab[k]);
            }
        }
    }
}

} // verus!
