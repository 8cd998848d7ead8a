use vstd::prelude::*;

verus! {

broadcast use vstd::string::group_string_axioms;

/// The characters of a string, one per element.
pub fn chars_of(s: &str) -> (chars: Vec<char>)
    ensures
        chars@ == s@,
{
    let mut chars: Vec<char> = Vec::new();
    for c in it: s.chars()
        invariant
            chars@ == it.history(),
    {
        chars.push(c);
    }
    chars
}

/// The character of a decimal digit.
pub open spec fn digit_char(d: nat) -> char {
    (d + 48) as char
}

/// The decimal representation of a number, without leading zeros.
pub open spec fn decimal(n: nat) -> Seq<char>
    decreases n,
{
    if n < 10 {
        seq![digit_char(n)]
    } else {
        decimal(n / 10).push(digit_char(n % 10))
    }
}

fn digit_str(d: u16) -> (s: &'static str)
    requires
        d < 10,
    ensures
        s@ == seq![digit_char(d as nat)],
{
    proof {
        reveal_strlit("0");
        reveal_strlit("1");
        reveal_strlit("2");
        reveal_strlit("3");
        reveal_strlit("4");
        reveal_strlit("5");
        reveal_strlit("6");
        reveal_strlit("7");
        reveal_strlit("8");
        reveal_strlit("9");
    }
    match d {
        0 => "0",
        1 => "1",
        2 => "2",
        3 => "3",
        4 => "4",
        5 => "5",
        6 => "6",
        7 => "7",
        8 => "8",
        _ => "9",
    }
}

/// Appends the decimal representation of `n`.
pub fn push_decimal(out: &mut String, n: u16)
    ensures
        final(out)@ == old(out)@ + decimal(n as nat),
    decreases n,
{
    if n >= 10 {
        push_decimal(out, n / 10);
    }
    out.append(digit_str(n % 10));
    assert(decimal(n as nat) == (if n < 10 {
        seq![digit_char(n as nat)]
    } else {
        decimal((n / 10) as nat).push(digit_char((n % 10) as nat))
    }));
    assert(final(out)@ =~= old(out)@ + decimal(n as nat));
}

/// `pattern` stands in `s` at position `i`.
pub open spec fn occurs_at(s: Seq<char>, pattern: Seq<char>, i: int) -> bool {
    0 <= i && i + pattern.len() <= s.len() && s.subrange(i, i + pattern.len()) == pattern
}

/// `i` is the position of the last occurrence of `pattern` in `s`.
pub open spec fn is_last_occurrence(s: Seq<char>, pattern: Seq<char>, i: int) -> bool {
    &&& occurs_at(s, pattern, i)
    &&& forall|j: int| i < j ==> !#[trigger] occurs_at(s, pattern, j)
}

fn matches_at(s: &Vec<char>, pattern: &Vec<char>, i: usize) -> (found: bool)
    requires
        i + pattern@.len() <= s@.len(),
    ensures
        found == occurs_at(s@, pattern@, i as int),
{
    let m = pattern.len();
    let n = s.len();
    for j in 0..m
        invariant
            m == pattern@.len(),
            n == s@.len(),
            i + m <= s@.len(),
            forall|k: int| 0 <= k < j ==> s@[i + k] == #[trigger] pattern@[k],
    {
        if s[i + j] != pattern[j] {
            assert(s@.subrange(i as int, i + m)[j as int] != pattern@[j as int]);
            return false;
        }
    }
    assert(s@.subrange(i as int, i + m) =~= pattern@);
    true
}

/// The position of the last occurrence of `pattern` in `s`, if there is one.
pub fn rfind(s: &Vec<char>, pattern: &Vec<char>) -> (found: Option<usize>)
    ensures
        match found {
            Some(i) => is_last_occurrence(s@, pattern@, i as int),
            None => forall|j: int| !#[trigger] occurs_at(s@, pattern@, j),
        },
{
    if pattern.len() > s.len() {
        return None;
    }
    let mut i = s.len() - pattern.len();
    loop
        invariant
            pattern@.len() <= s@.len(),
            i + pattern@.len() <= s@.len(),
            forall|j: int| i < j ==> !#[trigger] occurs_at(s@, pattern@, j),
        decreases i,
    {
        if matches_at(s, pattern, i) {
            return Some(i);
        }
        if i == 0 {
            return None;
        }
        i = i - 1;
    }
}

/// `insertion` put into `s` right after the last occurrence of `marker`.
pub open spec fn inserted_after_last(
    s: Seq<char>,
    marker: Seq<char>,
    insertion: Seq<char>,
    i: int,
) -> Seq<char> {
    s.subrange(0, i + marker.len()) + insertion + s.subrange(i + marker.len(), s.len() as int)
}

/// Puts `insertion` right after the last occurrence of `marker` in `s`; `None` when
/// `marker` does not occur.
pub fn insert_after_last(s: &str, marker: &str, insertion: &str) -> (result: Option<String>)
    ensures
        match result {
            Some(out) => exists|i: int|
                is_last_occurrence(s@, marker@, i) && out@ == #[trigger] inserted_after_last(
                    s@,
                    marker@,
                    insertion@,
                    i,
                ),
            None => forall|j: int| !#[trigger] occurs_at(s@, marker@, j),
        },
{
    let chars = chars_of(s);
    let marker_chars = chars_of(marker);
    match rfind(&chars, &marker_chars) {
        Some(i) => {
            let n = chars.len();
            assert(occurs_at(chars@, marker_chars@, i as int));
            let end = i + marker_chars.len();
            let mut out = s.substring_char(0, end).to_owned();
            out.append(insertion);
            out.append(s.substring_char(end, n));
            assert(out@ =~= inserted_after_last(s@, marker@, insertion@, i as int));
            Some(out)
        },
        None => None,
    }
}

} // verus!
