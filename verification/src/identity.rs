use crate::bytes::string_from_utf8;
use crate::error::CryptoError;
use vstd::prelude::*;
use vstd::string::*;
use vstd::utf8::*;

verus! {

/// Whether a character has the Unicode property `White_Space`: the
/// controls from tab to carriage return, the space, next line, the
/// no-break spaces, the Ogham space mark, the spaces of fixed width, the
/// line and paragraph separators, and the ideographic space.
pub open spec fn is_whitespace(c: char) -> bool {
    ||| '\u{9}' <= c <= '\u{d}'
    ||| c == ' '
    ||| c == '\u{85}'
    ||| c == '\u{a0}'
    ||| c == '\u{1680}'
    ||| '\u{2000}' <= c <= '\u{200a}'
    ||| c == '\u{2028}'
    ||| c == '\u{2029}'
    ||| c == '\u{202f}'
    ||| c == '\u{205f}'
    ||| c == '\u{3000}'
}

/// Calls `char::is_whitespace`.
///
/// Trusted: the answer is `true` exactly for the characters with the
/// property `White_Space`, which [`is_whitespace`] lists.
#[verifier::external_body]
fn char_is_whitespace(c: char) -> (b: bool)
    ensures
        b == is_whitespace(c),
{
    c.is_whitespace()
}

/// The text without its leading whitespace.
pub open spec fn trim_start(s: Seq<char>) -> Seq<char>
    decreases s.len(),
{
    if s.len() > 0 && is_whitespace(s[0]) {
        trim_start(s.drop_first())
    } else {
        s
    }
}

/// The text without its trailing whitespace.
pub open spec fn trim_end(s: Seq<char>) -> Seq<char>
    decreases s.len(),
{
    if s.len() > 0 && is_whitespace(s.last()) {
        trim_end(s.drop_last())
    } else {
        s
    }
}

/// The text without its leading and trailing whitespace.
pub open spec fn trimmed(s: Seq<char>) -> Seq<char> {
    trim_end(trim_start(s))
}

/// How many characters stand between `from` and the first `c` at or after
/// it, or the end of the text.
pub open spec fn run_len(s: Seq<char>, c: char, from: int) -> nat
    decreases s.len() - from,
{
    if from < 0 || from >= s.len() || s[from] == c {
        0
    } else {
        1 + run_len(s, c, from + 1)
    }
}

/// The position of the first `c` at or after `from`, or the end of the text
/// if there is none; `from` itself where it lies behind the end.
pub open spec fn index_of(s: Seq<char>, c: char, from: int) -> int {
    from + run_len(s, c, from)
}

/// Whether `marker` occurs in `s` as a run of adjacent characters.
pub open spec fn has_infix(s: Seq<char>, marker: Seq<char>) -> bool {
    exists|k: int|
        0 <= k && k + marker.len() <= s.len() && #[trigger] s.subrange(k, k + marker.len())
            == marker
}

/// The first line at or after `from` that holds `marker`.
pub open spec fn line_with(s: Seq<char>, marker: Seq<char>, from: int) -> Option<Seq<char>>
    decreases s.len() - from,
{
    if from < 0 || from >= s.len() {
        None
    } else {
        let end = index_of(s, '\n', from);
        if has_infix(s.subrange(from, end), marker) {
            Some(s.subrange(from, end))
        } else if end < s.len() {
            line_with(s, marker, end + 1)
        } else {
            None
        }
    }
}

/// The line that follows the first line at or after `from` that holds
/// `marker`, if both are there.
pub open spec fn line_after(s: Seq<char>, marker: Seq<char>, from: int) -> Option<Seq<char>>
    decreases s.len() - from,
{
    if from < 0 || from >= s.len() {
        None
    } else {
        let end = index_of(s, '\n', from);
        if has_infix(s.subrange(from, end), marker) {
            if end + 1 < s.len() {
                Some(s.subrange(end + 1, index_of(s, '\n', end + 1)))
            } else {
                None
            }
        } else if end < s.len() {
            line_after(s, marker, end + 1)
        } else {
            None
        }
    }
}

/// What follows the third double quote of a line, up to the fourth or to
/// the end of the line.
pub open spec fn quoted_field(line: Seq<char>) -> Option<Seq<char>> {
    let first = index_of(line, '"', 0);
    let second = index_of(line, '"', first + 1);
    let third = index_of(line, '"', second + 1);
    if first >= line.len() || second >= line.len() || third >= line.len() {
        None
    } else {
        Some(line.subrange(third + 1, index_of(line, '"', third + 1)))
    }
}

/// Finds the first `c` at or after `from`: its position, or the length of
/// the text if there is none; `from` itself if it lies behind the end.
pub fn find_char(s: &str, c: char, from: usize) -> (at: usize)
    ensures
        at == index_of(s@, c, from as int),
        from <= at,
        from <= s@.len() ==> at <= s@.len(),
        at < s@.len() ==> s@[at as int] == c,
{
    let n = s.unicode_len();
    if from >= n {
        return from;
    }
    let mut i: usize = from;
    let mut found = false;
    while i < n && !found
        invariant
            n == s@.len(),
            from <= i <= n,
            run_len(s@, c, from as int) == (i - from) + run_len(s@, c, i as int),
            found ==> i < n && s@[i as int] == c,
        decreases n - i + if found { 0int } else { 1int },
    {
        if s.get_char(i) == c {
            found = true;
        } else {
            i += 1;
        }
    }
    i
}

/// Tells whether `marker` occurs in `s`.
pub fn contains(s: &str, marker: &str) -> (found: bool)
    ensures
        found == has_infix(s@, marker@),
{
    let n = s.unicode_len();
    let m = marker.unicode_len();
    if m > n {
        return false;
    }
    let mut k: usize = 0;
    while k <= n - m
        invariant
            n == s@.len(),
            m == marker@.len(),
            m <= n,
            k <= n - m + 1,
            forall|p: int| 0 <= p < k ==> #[trigger] s@.subrange(p, p + m) != marker@,
        decreases n - m + 1 - k,
    {
        let mut j: usize = 0;
        let mut same = true;
        while j < m && same
            invariant
                n == s@.len(),
                m == marker@.len(),
                k + m <= n,
                j <= m,
                same ==> forall|t: int| 0 <= t < j ==> s@[k + t] == marker@[t],
                !same ==> s@.subrange(k as int, k + m) != marker@,
            decreases m - j + if same { 1int } else { 0int },
        {
            if s.get_char(k + j) == marker.get_char(j) {
                j += 1;
            } else {
                same = false;
                assert(s@.subrange(k as int, k + m)[j as int] != marker@[j as int]);
            }
        }
        if same {
            assert(s@.subrange(k as int, k + m) =~= marker@);
            return true;
        }
        if k == n - m {
            return false;
        }
        k += 1;
    }
    false
}

/// Strips leading and trailing whitespace.
pub fn trim<'a>(s: &'a str) -> (res: &'a str)
    ensures
        res@ == trimmed(s@),
{
    let n = s.unicode_len();
    let mut a: usize = 0;
    let mut stop = false;
    assert(s@.subrange(0, n as int) =~= s@);
    while a < n && !stop
        invariant
            n == s@.len(),
            a <= n,
            trim_start(s@) == trim_start(s@.subrange(a as int, n as int)),
            stop ==> a < n && !is_whitespace(s@[a as int]),
        decreases n - a + if stop { 0int } else { 1int },
    {
        if char_is_whitespace(s.get_char(a)) {
            assert(s@.subrange(a as int, n as int).drop_first() =~= s@.subrange(
                a + 1,
                n as int,
            ));
            a += 1;
        } else {
            stop = true;
        }
    }
    assert(trim_start(s@) == s@.subrange(a as int, n as int));
    let mut b: usize = n;
    stop = false;
    while a < b && !stop
        invariant
            n == s@.len(),
            a <= b <= n,
            trim_end(s@.subrange(a as int, n as int)) == trim_end(
                s@.subrange(a as int, b as int),
            ),
            stop ==> a < b && !is_whitespace(s@[b - 1]),
        decreases b - a + if stop { 0int } else { 1int },
    {
        if char_is_whitespace(s.get_char(b - 1)) {
            assert(s@.subrange(a as int, b as int).drop_last() =~= s@.subrange(
                a as int,
                b - 1,
            ));
            b -= 1;
        } else {
            stop = true;
        }
    }
    s.substring_char(a, b)
}

/// The line that follows the first line of the text that holds `marker`.
pub fn find_line_after<'a>(s: &'a str, marker: &str) -> (line: Option<&'a str>)
    ensures
        match line_after(s@, marker@, 0) {
            Some(text) => line matches Some(found) && found@ == text,
            None => line is None,
        },
{
    let n = s.unicode_len();
    let mut from: usize = 0;
    while from < n
        invariant
            n == s@.len(),
            from <= n,
            line_after(s@, marker@, 0) == line_after(s@, marker@, from as int),
        decreases n - from,
    {
        let end = find_char(s, '\n', from);
        if contains(s.substring_char(from, end), marker) {
            if end >= n || end + 1 >= n {
                return None;
            }
            let next_end = find_char(s, '\n', end + 1);
            return Some(s.substring_char(end + 1, next_end));
        }
        if end >= n {
            return None;
        }
        from = end + 1;
    }
    None
}

/// The first line of the text that holds `marker`.
pub fn find_line<'a>(s: &'a str, marker: &str) -> (line: Option<&'a str>)
    ensures
        match line_with(s@, marker@, 0) {
            Some(text) => line matches Some(found) && found@ == text,
            None => line is None,
        },
{
    let n = s.unicode_len();
    let mut from: usize = 0;
    while from < n
        invariant
            n == s@.len(),
            from <= n,
            line_with(s@, marker@, 0) == line_with(s@, marker@, from as int),
        decreases n - from,
    {
        let end = find_char(s, '\n', from);
        let line = s.substring_char(from, end);
        if contains(line, marker) {
            return Some(line);
        }
        if end >= n {
            return None;
        }
        from = end + 1;
    }
    None
}

/// What follows the third double quote of a line, up to the next quote or
/// the end of the line.
pub fn fourth_piece<'a>(line: &'a str) -> (piece: Option<&'a str>)
    ensures
        match quoted_field(line@) {
            Some(text) => piece matches Some(found) && found@ == text,
            None => piece is None,
        },
{
    let n = line.unicode_len();
    let first = find_char(line, '"', 0);
    if first >= n {
        return None;
    }
    let second = find_char(line, '"', first + 1);
    if second >= n {
        return None;
    }
    let third = find_char(line, '"', second + 1);
    if third >= n {
        return None;
    }
    let end = find_char(line, '"', third + 1);
    Some(line.substring_char(third + 1, end))
}

/// The identifier that an extracted value stands for: the value trimmed,
/// unless nothing is left of it.
pub open spec fn identity_of(value: Option<Seq<char>>) -> Option<Seq<char>> {
    match value {
        Some(text) => if trimmed(text).len() > 0 {
            Some(trimmed(text))
        } else {
            None
        },
        None => None,
    }
}

/// Whether `res` hands out the identifier `id`, or reports that there is
/// none.
pub open spec fn yields(res: Result<String, CryptoError>, id: Option<Seq<char>>) -> bool {
    match id {
        Some(text) => res matches Ok(found) && found@ == text,
        None => res matches Err(CryptoError::MachineIdError),
    }
}

/// Trims an extracted value into an identifier.
///
/// Fails with `MachineIdError` when there is no value or only whitespace.
pub fn extracted_identity(value: Option<&str>) -> (res: Result<String, CryptoError>)
    ensures
        yields(
            res,
            identity_of(
                match value {
                    Some(text) => Some(text@),
                    None => None,
                },
            ),
        ),
{
    match value {
        Some(text) => {
            let id = trim(text);
            if id.unicode_len() == 0 {
                Err(CryptoError::MachineIdError)
            } else {
                Ok(String::from_str(id))
            }
        },
        None => Err(CryptoError::MachineIdError),
    }
}

/// The identifier in the contents of a machine identity file.
pub open spec fn file_machine_id(contents: Seq<char>) -> Option<Seq<char>> {
    identity_of(Some(contents))
}

/// The identifier in the output of the Windows product query: the line
/// that follows the header line, which is found by the marker `UUID`.
pub open spec fn wmic_uuid(output: Seq<char>) -> Option<Seq<char>> {
    identity_of(line_after(output, "UUID"@, 0))
}

/// The identifier in the output of the macOS registry query: the fourth
/// quote-separated piece of the first line that holds the marker
/// `IOPlatformUUID`.
pub open spec fn ioreg_uuid(output: Seq<char>) -> Option<Seq<char>> {
    match line_with(output, "IOPlatformUUID"@, 0) {
        Some(line) => identity_of(quoted_field(line)),
        None => None,
    }
}

/// The first `c` at or after a place in the text stands in the text or at
/// its end.
pub proof fn lemma_index_of_bounds(s: Seq<char>, c: char, from: int)
    requires
        0 <= from <= s.len(),
    ensures
        from <= index_of(s, c, from) <= s.len(),
    decreases s.len() - from,
{
    if from < s.len() && s[from] != c {
        lemma_index_of_bounds(s, c, from + 1);
    }
}

/// Without the marker there is no marked line: where `marker` occurs
/// nowhere in the text, no line holds it and no line follows one that does.
pub proof fn lemma_marker_needed(s: Seq<char>, marker: Seq<char>, from: int)
    requires
        !has_infix(s, marker),
    ensures
        line_with(s, marker, from) is None,
        line_after(s, marker, from) is None,
    decreases s.len() - from,
{
    if 0 <= from < s.len() {
        let end = index_of(s, '\n', from);
        lemma_index_of_bounds(s, '\n', from);
        let line = s.subrange(from, end);
        if has_infix(line, marker) {
            let k = choose|k: int|
                0 <= k && k + marker.len() <= line.len() && #[trigger] line.subrange(
                    k,
                    k + marker.len(),
                ) == marker;
            assert(s.subrange(from + k, from + k + marker.len()) =~= line.subrange(
                k,
                k + marker.len(),
            ));
            assert(has_infix(s, marker));
        }
        if end < s.len() {
            lemma_marker_needed(s, marker, end + 1);
        }
    }
}

/// Reads the identifier from the contents of a machine identity file.
pub fn machine_id_from_file(contents: &str) -> (res: Result<String, CryptoError>)
    ensures
        yields(res, file_machine_id(contents@)),
{
    extracted_identity(Some(contents))
}

/// Reads the identifier from the output of the Windows product query.
///
/// Fails with `MachineIdError` when no line holds the header `UUID`, when
/// nothing follows that line, or when what follows is blank.
pub fn parse_wmic_uuid(output: &str) -> (res: Result<String, CryptoError>)
    ensures
        yields(res, wmic_uuid(output@)),
        !has_infix(output@, "UUID"@) ==> res matches Err(CryptoError::MachineIdError),
{
    proof {
        if !has_infix(output@, "UUID"@) {
            lemma_marker_needed(output@, "UUID"@, 0);
        }
    }
    extracted_identity(find_line_after(output, "UUID"))
}

/// Reads the identifier from the output of the macOS registry query.
///
/// Fails with `MachineIdError` when no line holds the marker
/// `IOPlatformUUID`, when that line has fewer than three double quotes, or
/// when the value is blank.
pub fn parse_ioreg_uuid(output: &str) -> (res: Result<String, CryptoError>)
    ensures
        yields(res, ioreg_uuid(output@)),
        !has_infix(output@, "IOPlatformUUID"@) ==> res matches Err(CryptoError::MachineIdError),
{
    proof {
        if !has_infix(output@, "IOPlatformUUID"@) {
            lemma_marker_needed(output@, "IOPlatformUUID"@, 0);
        }
    }
    match find_line(output, "IOPlatformUUID") {
        Some(line) => extracted_identity(fourth_piece(line)),
        None => Err(CryptoError::MachineIdError),
    }
}

/// The platform whose mechanism produced the raw identity text.
#[derive(Clone, Copy, Debug, PartialEq, Eq)]
pub enum Platform {
    /// The output of `wmic csproduct get UUID`.
    Windows,
    /// The contents of a machine identity file.
    Linux,
    /// The output of `ioreg -rd1 -c IOPlatformExpertDevice`.
    MacOs,
}

/// The identifier in what a platform's mechanism produced.
pub open spec fn machine_id_of(platform: Platform, raw: Seq<char>) -> Option<Seq<char>> {
    match platform {
        Platform::Windows => wmic_uuid(raw),
        Platform::Linux => file_machine_id(raw),
        Platform::MacOs => ioreg_uuid(raw),
    }
}

/// Resolves the machine identity from what the platform's mechanism
/// produced.
///
/// Fails with `MachineIdError` exactly when the text holds no identifier,
/// which includes every command output without the platform's marker.
pub fn get_machine_id(platform: Platform, raw: &str) -> (res: Result<String, CryptoError>)
    ensures
        yields(res, machine_id_of(platform, raw@)),
        platform is Windows && !has_infix(raw@, "UUID"@) ==> res matches Err(
            CryptoError::MachineIdError,
        ),
        platform is MacOs && !has_infix(raw@, "IOPlatformUUID"@) ==> res matches Err(
            CryptoError::MachineIdError,
        ),
{
    match platform {
        Platform::Windows => parse_wmic_uuid(raw),
        Platform::Linux => machine_id_from_file(raw),
        Platform::MacOs => parse_ioreg_uuid(raw),
    }
}

/// The message of a command that reported failure.
pub open spec fn failure_message(status: Seq<char>, stderr: Seq<char>) -> Seq<char> {
    "Command failed with status "@ + status + ": "@ + stderr
}

/// Interprets what an identity command left behind.
///
/// The standard output of a successful command is decoded as UTF-8 and
/// trimmed; output that is not UTF-8 fails with `Utf8Error`. A command that
/// reported failure gives `ShellCommandError` with its status and what it
/// wrote to standard error.
pub fn command_output(success: bool, stdout: Vec<u8>, status: &str, stderr: &str) -> (res: Result<
    String,
    CryptoError,
>)
    ensures
        success && valid_utf8(stdout@) ==> (res matches Ok(text) && text@ == trimmed(
            decode_utf8(stdout@),
        )),
        success && !valid_utf8(stdout@) ==> res matches Err(CryptoError::Utf8Error(_)),
        !success ==> (res matches Err(CryptoError::ShellCommandError(message)) && message@
            == failure_message(status@, stderr@)),
{
    if success {
        match string_from_utf8(stdout) {
            Ok(text) => Ok(String::from_str(trim(text.as_str()))),
            Err(e) => Err(CryptoError::Utf8Error(e)),
        }
    } else {
        let mut message = String::from_str("Command failed with status ");
        message.append(status);
        message.append(": ");
        message.append(stderr);
        Err(CryptoError::ShellCommandError(message))
    }
}

} // verus!
