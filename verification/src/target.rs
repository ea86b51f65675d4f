//! Resolving an accepted file path to a build target.
//!
//! A watched file is named `<number>_<name>.<ext>`. The target resolver takes
//! the file-name component of the path, splits it at the first underscore,
//! parses the leading segment as a decimal exercise number, and ascends two
//! directory levels from the file to find the working directory (from
//! `<root>/exercises/<file>` that is `<root>`). A malformed name is a fatal
//! input error, reported as a value and turned into a process exit by the
//! caller.

use vstd::prelude::*;
use vstd::string::StrSliceExecFns;
use vstd::string::StringExecFns;

use crate::path_model::file_name_of;
use crate::path_model::file_name_spec;
use crate::path_model::parent_of;
use crate::path_model::parent_spec;

verus! {

/// The index of the first occurrence of `c` in `s`, or `-1` if `c` does not
/// occur in `s`.
pub open spec fn first_pos_of(s: Seq<char>, c: char) -> int
    decreases s.len(),
{
    if s.len() == 0 {
        -1
    } else if s[0] == c {
        0
    } else if first_pos_of(s.drop_first(), c) < 0 {
        -1
    } else {
        first_pos_of(s.drop_first(), c) + 1
    }
}

/// `first_pos_of` points at an occurrence of `c` and nothing before it is `c`.
pub proof fn lemma_first_pos_of(s: Seq<char>, c: char)
    ensures
        -1 <= first_pos_of(s, c) < s.len(),
        first_pos_of(s, c) >= 0 ==> s[first_pos_of(s, c)] == c,
        forall|j: int| 0 <= j < s.len() && s[j] == c ==> first_pos_of(s, c) >= 0,
        forall|j: int| 0 <= j < first_pos_of(s, c) ==> s[j] != c,
    decreases s.len(),
{
    if s.len() > 0 && s[0] != c {
        lemma_first_pos_of(s.drop_first(), c);
        assert forall|j: int| 0 <= j < s.len() && s[j] == c implies first_pos_of(s, c) >= 0 by {
            assert(s.drop_first()[j - 1] == s[j]);
        }
        assert forall|j: int| 0 <= j < first_pos_of(s, c) implies s[j] != c by {
            if j >= 1 {
                assert(s[j] == s.drop_first()[j - 1]);
            }
        }
    }
}

/// Finds the first occurrence of `c` in `s`.
pub fn ffind_char(s: &str, c: char) -> (r: Option<usize>)
    ensures
        match r {
            Some(i) => first_pos_of(s@, c) == i,
            None => first_pos_of(s@, c) == -1,
        },
{
    proof {
        lemma_first_pos_of(s@, c);
    }
    let n = s.unicode_len();
    let mut i: usize = 0;
    while i < n
        invariant
            i <= n,
            n == s@.len(),
            forall|j: int| 0 <= j < i ==> s@[j] != c,
        decreases n - i,
    {
        if s.get_char(i) == c {
            proof {
                lemma_first_pos_of(s@, c);
            }
            return Some(i);
        }
        i = i + 1;
    }
    None
}

/// The candidate exercise-number segment of a file name: everything before
/// the first underscore, or the whole name when it has none.
pub open spec fn number_candidate(name: Seq<char>) -> Seq<char> {
    let k = first_pos_of(name, '_');
    if k < 0 {
        name
    } else {
        name.subrange(0, k)
    }
}

/// Extracts the candidate exercise-number segment of a file name.
pub fn number_candidate_of(name: &str) -> (r: String)
    ensures
        r@ == number_candidate(name@),
{
    proof {
        lemma_first_pos_of(name@, '_');
    }
    let n = name.unicode_len();
    match ffind_char(name, '_') {
        None => {
            proof {
                assert(name@.subrange(0, n as int) =~= name@);
            }
            name.substring_char(0, n).to_owned()
        },
        Some(k) => name.substring_char(0, k).to_owned(),
    }
}

/// Whether a character is a decimal digit.
pub open spec fn is_dec_digit(c: char) -> bool {
    '0' <= c && c <= '9'
}

/// The numeric value of a decimal digit.
pub open spec fn digit_val(c: char) -> nat {
    (c as nat - '0' as nat) as nat
}

/// Whether every character of `s` is a decimal digit.
pub open spec fn all_digits(s: Seq<char>) -> bool {
    forall|i: int| 0 <= i < s.len() ==> is_dec_digit(s[i])
}

/// The value of a sequence of decimal digits, most significant first.
pub open spec fn dec_value(s: Seq<char>) -> nat
    decreases s.len(),
{
    if s.len() == 0 {
        0
    } else {
        dec_value(s.drop_last()) * 10 + digit_val(s.last())
    }
}

/// Appending digits never shrinks the value: every prefix of a digit string
/// is worth at most the whole string.
pub proof fn lemma_dec_value_prefix_le(s: Seq<char>, i: int)
    requires
        0 <= i <= s.len(),
    ensures
        dec_value(s.take(i)) <= dec_value(s),
    decreases s.len() - i,
{
    if i < s.len() {
        lemma_dec_value_prefix_le(s, i + 1);
        assert(s.take(i + 1).drop_last() =~= s.take(i));
        assert(dec_value(s.take(i)) <= dec_value(s.take(i)) * 10 + digit_val(s.take(i + 1).last()));
    } else {
        assert(s.take(i) =~= s);
    }
}

/// Why a candidate segment failed to parse as an exercise number.
#[derive(Clone, Copy, Debug, PartialEq, Eq, Structural)]
pub enum ParseError {
    /// The segment is empty.
    Empty,
    /// The segment holds a character that is no decimal digit.
    InvalidDigit,
    /// The value does not fit in the target integer type.
    Overflow,
}

/// The reason a digit-string fails to parse, for a string that does fail.
pub open spec fn parse_error_spec(s: Seq<char>) -> ParseError {
    if s.len() == 0 {
        ParseError::Empty
    } else if !all_digits(s) {
        ParseError::InvalidDigit
    } else {
        ParseError::Overflow
    }
}

/// Whether a digit-string parses: non-empty, all digits, value in range.
pub open spec fn parses_as_number(s: Seq<char>) -> bool {
    s.len() > 0 && all_digits(s) && dec_value(s) <= usize::MAX
}

/// Parses a non-negative decimal integer, rejecting anything else.
pub fn parse_exercise_number(s: &str) -> (r: Result<usize, ParseError>)
    ensures
        match r {
            Ok(n) => parses_as_number(s@) && n == dec_value(s@),
            Err(e) => !parses_as_number(s@) && e == parse_error_spec(s@),
        },
{
    let n = s.unicode_len();
    if n == 0 {
        return Err(ParseError::Empty);
    }
    let mut i: usize = 0;
    while i < n
        invariant
            i <= n,
            n == s@.len(),
            forall|j: int| 0 <= j < i ==> is_dec_digit(s@[j]),
        decreases n - i,
    {
        let c = s.get_char(i);
        if c < '0' || c > '9' {
            return Err(ParseError::InvalidDigit);
        }
        i = i + 1;
    }
    let mut acc: usize = 0;
    i = 0;
    while i < n
        invariant
            i <= n,
            n == s@.len(),
            all_digits(s@),
            acc == dec_value(s@.take(i as int)),
        decreases n - i,
    {
        let c = s.get_char(i);
        let d = (c as u32 - '0' as u32) as usize;
        let stepped = match acc.checked_mul(10) {
            None => None,
            Some(shifted) => shifted.checked_add(d),
        };
        proof {
            assert(s@.take(i + 1).drop_last() =~= s@.take(i as int));
            assert(dec_value(s@.take(i + 1)) == acc * 10 + digit_val(s@[i as int]));
        }
        match stepped {
            None => {
                proof {
                    lemma_dec_value_prefix_le(s@, i + 1);
                }
                return Err(ParseError::Overflow);
            },
            Some(next) => {
                acc = next;
            },
        }
        i = i + 1;
    }
    proof {
        assert(s@.take(n as int) =~= s@);
    }
    Ok(acc)
}

/// A resolved build invocation: the exercise to build and the directory to
/// run the build from.
#[derive(Debug)]
pub struct BuildTarget {
    /// The exercise number parsed from the file name.
    pub exercise: usize,
    /// The directory two levels above the changed file.
    pub working_dir: String,
}

/// The build file the external tool is pointed at: the working directory,
/// a separator, and the fixed build-file name.
pub open spec fn build_file_of(wd: Seq<char>) -> Seq<char> {
    wd + seq!['/'] + "build.zig"@
}

impl BuildTarget {
    /// The path of the build file under this target's working directory.
    pub fn build_file_path(&self) -> (r: String)
        ensures
            r@ == build_file_of(self.working_dir@),
    {
        let mut out = self.working_dir.clone();
        out.append("/");
        out.append("build.zig");
        proof {
            reveal_strlit("/");
            assert(out@ =~= build_file_of(self.working_dir@));
        }
        out
    }
}

/// The decimal digit naming a value below ten.
fn digit_str(d: usize) -> (r: &'static str)
    requires
        d < 10,
    ensures
        r@.len() == 1 && is_dec_digit(r@[0]) && digit_val(r@[0]) == d,
{
    proof {
        reveal_strlit("0");
        reveal_strlit("1");
        reveal_strlit("2");
        reveal_strlit("3");
        reveal_strlit("4");
        reveal_strlit("5");
        reveal_strlit("6");
        reveal_strlit("7");
        reveal_strlit("8");
        reveal_strlit("9");
    }
    if d == 0 {
        "0"
    } else if d == 1 {
        "1"
    } else if d == 2 {
        "2"
    } else if d == 3 {
        "3"
    } else if d == 4 {
        "4"
    } else if d == 5 {
        "5"
    } else if d == 6 {
        "6"
    } else if d == 7 {
        "7"
    } else if d == 8 {
        "8"
    } else {
        "9"
    }
}

/// Renders a number as the canonical decimal digit string whose value it
/// is: no leading zero, so parsing the result gives the number back.
pub fn decimal_string(n: usize) -> (r: String)
    ensures
        parses_as_number(r@),
        dec_value(r@) == n,
        r@.len() == 1 || r@[0] != '0',
    decreases n,
{
    if n < 10 {
        let r = digit_str(n).to_owned();
        proof {
            assert(r@.drop_last() =~= Seq::<char>::empty());
            assert(dec_value(r@.drop_last()) == 0);
            assert(r@.last() == r@[0]);
            assert(dec_value(r@) == digit_val(r@[0]));
            assert(all_digits(r@));
        }
        r
    } else {
        let mut out = decimal_string(n / 10);
        let ghost prefix = out@;
        let ds = digit_str(n % 10);
        let ghost dv = ds@;
        out.append(ds);
        proof {
            assert(out@.drop_last() =~= prefix);
            assert(out@.last() == dv[0]);
            assert(dec_value(out@) == dec_value(prefix) * 10 + digit_val(dv[0]));
            assert(n as int == (n as int / 10) * 10 + (n as int % 10));
            assert(dec_value(out@) == n);
            assert(out@[0] == prefix[0]);
            if prefix.len() == 1 {
                assert(prefix.drop_last() =~= Seq::<char>::empty());
                assert(dec_value(prefix.drop_last()) == 0);
                assert(prefix.last() == prefix[0]);
                assert(digit_val(prefix[0]) == n / 10);
                assert(digit_val('0') == 0);
                assert(prefix[0] != '0');
            }
            assert forall|i: int| 0 <= i < out@.len() implies is_dec_digit(out@[i]) by {
                if i < prefix.len() {
                    assert(out@[i] == prefix[i]);
                } else {
                    assert(out@[i] == dv[0]);
                }
            }
        }
        out
    }
}

/// A malformed watched file name; fatal for the whole watcher.
#[derive(Clone, Debug, PartialEq, Eq)]
pub enum TargetError {
    /// The path has no file-name component; carries the offending path so
    /// that the diagnostic can name it.
    InvalidFileName {
        /// The path that has no file-name component.
        path: String,
    },
    /// The segment before the first underscore is no exercise number.
    InvalidExerciseNumber(ParseError),
}

/// The wording of a parse failure, matching what the standard library's
/// integer parser reports.
pub open spec fn parse_error_text(e: ParseError) -> Seq<char> {
    match e {
        ParseError::Empty => "cannot parse integer from empty string"@,
        ParseError::InvalidDigit => "invalid digit found in string"@,
        ParseError::Overflow => "number too large to fit in target type"@,
    }
}

/// The diagnostic a `TargetError` is reported with; it names the offending
/// path, or the reason its number segment does not parse.
pub open spec fn target_error_message(e: TargetError) -> Seq<char> {
    match e {
        TargetError::InvalidFileName { path } => "Invalid file name for path "@ + path@,
        TargetError::InvalidExerciseNumber(p) => "Failed to convert exercise number: "@
            + parse_error_text(p),
    }
}

impl TargetError {
    /// Renders the diagnostic the watcher exits with.
    pub fn message(&self) -> (r: String)
        ensures
            r@ == target_error_message(*self),
    {
        match self {
            TargetError::InvalidFileName { path } => {
                let mut out = "Invalid file name for path ".to_owned();
                out.append(path.as_str());
                out
            },
            TargetError::InvalidExerciseNumber(p) => {
                let mut out = "Failed to convert exercise number: ".to_owned();
                match p {
                    ParseError::Empty => out.append("cannot parse integer from empty string"),
                    ParseError::InvalidDigit => out.append("invalid digit found in string"),
                    ParseError::Overflow => out.append("number too large to fit in target type"),
                }
                out
            },
        }
    }
}

/// Whether a path resolves to a build target: it has a file-name component
/// whose leading segment parses as an exercise number.
pub open spec fn resolvable(p: Seq<char>) -> bool {
    match file_name_spec(p) {
        None => false,
        Some(name) => parses_as_number(number_candidate(name)),
    }
}

/// The exercise number of a resolvable path.
pub open spec fn target_number(p: Seq<char>) -> nat {
    dec_value(number_candidate(file_name_spec(p).unwrap()))
}

/// The working directory of a path: two levels above the file.
pub open spec fn target_dir(p: Seq<char>) -> Seq<char> {
    parent_spec(parent_spec(p))
}

/// Whether `e` is the error an unresolvable path `p` is rejected with: a
/// missing file-name component is reported with the offending path itself,
/// a bad number segment with the reason it does not parse.
pub open spec fn target_error_of(p: Seq<char>, e: TargetError) -> bool {
    match file_name_spec(p) {
        None => (e matches TargetError::InvalidFileName { path } && path@ == p),
        Some(name) => e == TargetError::InvalidExerciseNumber(
            parse_error_spec(number_candidate(name)),
        ),
    }
}

/// Resolves an accepted file path to the exercise number named by its file
/// name and the working directory two levels above it.
pub fn resolve_target(path: &String) -> (r: Result<BuildTarget, TargetError>)
    ensures
        match r {
            Ok(t) => resolvable(path@) && t.exercise == target_number(path@) && t.working_dir@
                == target_dir(path@),
            Err(e) => !resolvable(path@) && target_error_of(path@, e),
        },
{
    let name = match file_name_of(path.as_str()) {
        None => {
            return Err(TargetError::InvalidFileName { path: path.clone() });
        },
        Some(n) => n,
    };
    let candidate = number_candidate_of(name.as_str());
    let exercise = match parse_exercise_number(candidate.as_str()) {
        Err(e) => {
            return Err(TargetError::InvalidExerciseNumber(e));
        },
        Ok(v) => v,
    };
    let above = parent_of(path.as_str());
    let working_dir = parent_of(above.as_str());
    Ok(BuildTarget { exercise, working_dir })
}

/// Whether `t` is the build target resolved from the path `p`.
pub open spec fn target_matches(t: BuildTarget, p: Seq<char>) -> bool {
    t.exercise == target_number(p) && t.working_dir@ == target_dir(p)
}

/// Resolves every accepted path of one batch, in acceptance order, failing
/// on the first path that does not resolve.
pub fn plan_rebuilds(paths: &Vec<String>) -> (r: Result<Vec<BuildTarget>, TargetError>)
    ensures
        match r {
            Ok(ts) => ts@.len() == paths@.len() && (forall|i: int|
                0 <= i < paths@.len() ==> resolvable(#[trigger] paths@[i]@)) && (forall|i: int|
                0 <= i < ts@.len() ==> target_matches(#[trigger] ts@[i], paths@[i]@)),
            Err(e) => exists|j: int|
                0 <= j < paths@.len() && !resolvable(#[trigger] paths@[j]@) && target_error_of(
                    paths@[j]@,
                    e,
                ) && (forall|k: int| 0 <= k < j ==> resolvable(#[trigger] paths@[k]@)),
        },
{
    let mut targets: Vec<BuildTarget> = Vec::new();
    let mut i: usize = 0;
    while i < paths.len()
        invariant
            i <= paths@.len(),
            targets@.len() == i,
            forall|k: int| 0 <= k < i ==> resolvable(#[trigger] paths@[k]@),
            forall|k: int| 0 <= k < i ==> target_matches(#[trigger] targets@[k], paths@[k]@),
        decreases paths@.len() - i,
    {
        let ghost previous = targets@;
        match resolve_target(&paths[i]) {
            Ok(t) => {
                targets.push(t);
                proof {
                    assert forall|k: int|
                        0 <= k < i + 1 implies target_matches(
                        #[trigger] targets@[k],
                        paths@[k]@,
                    ) by {
                        if k < i {
                            assert(targets@[k] == previous[k]);
                        } else {
                            assert(targets@[k] == t);
                        }
                    }
                }
            },
            Err(e) => {
                proof {
                    let j = i as int;
                    assert(0 <= j < paths@.len() && !resolvable(paths@[j]@) && target_error_of(
                        paths@[j]@,
                        e,
                    ) && (forall|k: int| 0 <= k < j ==> resolvable(#[trigger] paths@[k]@)));
                }
                return Err(e);
            },
        }
        i = i + 1;
    }
    Ok(targets)
}

} // verus!
