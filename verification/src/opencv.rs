use vstd::prelude::*;
use vstd::string::{StrSliceExecFns, StringExecFns};
use crate::setup::SetupStep;

verus! {

/// What the `regex` crate captures as group 1: the text of that group in
/// the leftmost match of `pattern` in `haystack`, or `None` where the
/// pattern does not compile, nothing matches, the pattern has no such
/// group, or the group took no part in the match.
pub uninterp spec fn first_group(pattern: Seq<char>, haystack: Seq<char>) -> Option<Seq<char>>;

/// Calls `regex::Regex::new` on the pattern, `Regex::captures` on the
/// haystack and `Captures::get(1)` on what was captured, and hands out the
/// text of that group.
///
/// Trusted: the result is `first_group` of the two texts. Nothing is
/// claimed about which text that is.
#[verifier::external_body]
fn capture_first_group(pattern: &str, haystack: &str) -> (group: Option<String>)
    ensures
        match group {
            Some(text) => first_group(pattern@, haystack@) == Some(text@),
            None => first_group(pattern@, haystack@) is None,
        },
{
    match regex::Regex::new(pattern) {
        Ok(re) => match re.captures(haystack) {
            Some(captures) => match captures.get(1) {
                Some(found) => Some(found.as_str().to_owned()),
                None => None,
            },
            None => None,
        },
        Err(_) => None,
    }
}

/// The pattern of an OpenCV world library's file name, its version digits
/// in group 1.
pub open spec fn world_library_pattern() -> Seq<char> {
    "opencv_world(\\d+)\\.lib"@
}

/// Whether a character is one of `0` to `9`.
pub open spec fn is_decimal_digit(c: char) -> bool {
    '0' <= c && c <= '9'
}

/// The number that a run of decimal digits stands for.
pub open spec fn decimal_value(digits: Seq<char>) -> nat
    decreases digits.len(),
{
    if digits.len() == 0 {
        0
    } else {
        decimal_value(digits.drop_last()) * 10 + (digits.last() as u32 - '0' as u32) as nat
    }
}

/// The version that a run of characters stands for: its decimal value,
/// where it is a run of at least one decimal digit and the value fits 32
/// bits.
pub open spec fn version_of(digits: Seq<char>) -> Option<u32> {
    if digits.len() > 0 && (forall|i: int| 0 <= i < digits.len() ==> is_decimal_digit(digits[i]))
        && decimal_value(digits) <= u32::MAX {
        Some(decimal_value(digits) as u32)
    } else {
        None
    }
}

proof fn decimal_value_grows(digits: Seq<char>)
    requires
        digits.len() > 0,
        forall|i: int| 0 <= i < digits.len() ==> is_decimal_digit(digits[i]),
    ensures
        decimal_value(digits.drop_last()) <= decimal_value(digits),
{
    assert(is_decimal_digit(digits[digits.len() - 1]));
}

proof fn prefix_value_is_bounded(digits: Seq<char>, upto: int)
    requires
        0 <= upto <= digits.len(),
        forall|i: int| 0 <= i < digits.len() ==> is_decimal_digit(digits[i]),
    ensures
        decimal_value(digits.take(upto)) <= decimal_value(digits),
    decreases digits.len() - upto,
{
    if upto < digits.len() {
        let longer = digits.take(upto + 1);
        assert(longer.drop_last() =~= digits.take(upto));
        decimal_value_grows(longer);
        prefix_value_is_bounded(digits, upto + 1);
    } else {
        assert(digits.take(upto) =~= digits);
    }
}

/// Reads a version number written in decimal digits.
///
/// Gives `None` for the empty text, for a text with any other character,
/// and for a number above the largest that 32 bits hold.
pub fn parse_version(digits: &str) -> (version: Option<u32>)
    ensures
        version == version_of(digits@),
{
    let len = digits.unicode_len();
    if len == 0 {
        return None;
    }
    let mut value: u32 = 0;
    let mut at: usize = 0;
    while at < len
        invariant
            len == digits@.len(),
            at <= len,
            forall|i: int| 0 <= i < at ==> is_decimal_digit(digits@[i]),
            value == decimal_value(digits@.take(at as int)),
        decreases len - at,
    {
        let c = digits.get_char(at);
        if !('0' <= c && c <= '9') {
            return None;
        }
        let digit: u32 = c as u32 - '0' as u32;
        proof {
            assert(digits@.take(at + 1).drop_last() =~= digits@.take(at as int));
            assert(digits@.take(at + 1).last() == c);
        }
        if value > (u32::MAX - digit) / 10 {
            proof {
                assert(decimal_value(digits@.take(at + 1)) > u32::MAX);
                if forall|i: int| 0 <= i < digits@.len() ==> is_decimal_digit(digits@[i]) {
                    prefix_value_is_bounded(digits@, at + 1);
                }
            }
            return None;
        }
        value = value * 10 + digit;
        at = at + 1;
    }
    assert(digits@.take(len as int) =~= digits@);
    Some(value)
}

/// The version in the name of an OpenCV world library file, such as 4110
/// in `opencv_world4110.lib`.
///
/// The name is searched for the library pattern; `None` where it does not
/// occur. Where it does, the digits found are read by `parse_version`.
pub fn opencv_world_version(file_name: &str) -> (found: Option<Option<u32>>)
    ensures
        found == (match first_group(world_library_pattern(), file_name@) {
            Some(digits) => Some(version_of(digits)),
            None => None,
        }),
{
    match capture_first_group("opencv_world(\\d+)\\.lib", file_name) {
        Some(digits) => Some(parse_version(digits.as_str())),
        None => None,
    }
}

/// What a search of a directory listing for the OpenCV world library found.
#[derive(Clone, Copy, Debug, PartialEq, Eq, Structural)]
pub enum VersionSearch {
    /// The first library file in the listing has this version.
    Found(u32),
    /// The first library file in the listing has no readable version.
    Unreadable,
    /// No file of the listing is a world library.
    NotFound,
}

/// What the search of the first `upto` names of a listing finds.
pub open spec fn search_of(names: Seq<Seq<char>>, upto: nat) -> VersionSearch
    decreases upto,
{
    if upto == 0 {
        VersionSearch::NotFound
    } else {
        match search_of(names, (upto - 1) as nat) {
            VersionSearch::NotFound => match first_group(
                world_library_pattern(),
                names[upto - 1],
            ) {
                Some(digits) => match version_of(digits) {
                    Some(version) => VersionSearch::Found(version),
                    None => VersionSearch::Unreadable,
                },
                None => VersionSearch::NotFound,
            },
            settled => settled,
        }
    }
}

/// The texts of a list of names.
pub open spec fn name_texts(names: Seq<String>) -> Seq<Seq<char>> {
    Seq::new(names.len(), |i: int| names[i]@)
}

/// Searches a directory listing, in its order, for the OpenCV world
/// library, and reads the version of the first one found.
pub fn find_opencv_version(names: &Vec<String>) -> (search: VersionSearch)
    ensures
        search == search_of(name_texts(names@), names@.len()),
{
    let mut at: usize = 0;
    while at < names.len()
        invariant
            at <= names@.len(),
            search_of(name_texts(names@), at as nat) == VersionSearch::NotFound,
        decreases names@.len() - at,
    {
        let found = opencv_world_version(names[at].as_str());
        proof {
            assert(name_texts(names@)[at as int] == names@[at as int]@);
        }
        match found {
            Some(Some(version)) => {
                proof {
                    rest_of_search_is_settled(name_texts(names@), (at + 1) as nat, names@.len());
                }
                return VersionSearch::Found(version);
            },
            Some(None) => {
                proof {
                    rest_of_search_is_settled(name_texts(names@), (at + 1) as nat, names@.len());
                }
                return VersionSearch::Unreadable;
            },
            None => {},
        }
        at = at + 1;
    }
    VersionSearch::NotFound
}

proof fn rest_of_search_is_settled(names: Seq<Seq<char>>, settled: nat, upto: nat)
    requires
        settled <= upto,
        search_of(names, settled) != VersionSearch::NotFound,
    ensures
        search_of(names, upto) == search_of(names, settled),
    decreases upto,
{
    if settled < upto {
        rest_of_search_is_settled(names, settled, (upto - 1) as nat);
    }
}

/// The character of a decimal digit.
pub open spec fn digit_char(digit: nat) -> char {
    if digit == 0 {
        '0'
    } else if digit == 1 {
        '1'
    } else if digit == 2 {
        '2'
    } else if digit == 3 {
        '3'
    } else if digit == 4 {
        '4'
    } else if digit == 5 {
        '5'
    } else if digit == 6 {
        '6'
    } else if digit == 7 {
        '7'
    } else if digit == 8 {
        '8'
    } else {
        '9'
    }
}

/// A number written in decimal digits, without leading zeros.
pub open spec fn decimal_text(number: nat) -> Seq<char>
    decreases number,
{
    if number < 10 {
        seq![digit_char(number)]
    } else {
        decimal_text(number / 10).push(digit_char(number % 10))
    }
}

fn digit_text(digit: u32) -> (text: &'static str)
    requires
        digit < 10,
    ensures
        text@ == seq![digit_char(digit as nat)],
{
    proof {
        reveal_strlit("0");
        reveal_strlit("1");
        reveal_strlit("2");
        reveal_strlit("3");
        reveal_strlit("4");
        reveal_strlit("5");
        reveal_strlit("6");
        reveal_strlit("7");
        reveal_strlit("8");
        reveal_strlit("9");
    }
    let text = match digit {
        0 => "0",
        1 => "1",
        2 => "2",
        3 => "3",
        4 => "4",
        5 => "5",
        6 => "6",
        7 => "7",
        8 => "8",
        _ => "9",
    };
    assert(text@ =~= seq![digit_char(digit as nat)]);
    text
}

/// Writes a number in decimal digits.
pub fn decimal(number: u32) -> (text: String)
    ensures
        text@ == decimal_text(number as nat),
    decreases number,
{
    if number < 10 {
        String::from_str(digit_text(number))
    } else {
        let mut text = decimal(number / 10);
        text.append(digit_text(number % 10));
        assert(text@ =~= decimal_text(number as nat));
        text
    }
}

/// The text of the script that points the OpenCV environment variables at
/// the library of the given version.
pub open spec fn opencv_dirs_text(version: u32) -> Seq<char> {
    "[Environment]::SetEnvironmentVariable('OPENCV_LINK_LIBS', 'opencv_world"@ + decimal_text(
        version as nat,
    )
        + "', 'Machine')\n        [Environment]::SetEnvironmentVariable('OPENCV_INCLUDE_PATHS', 'C:\\tools\\opencv\\build\\include', 'Machine')\n        [Environment]::SetEnvironmentVariable('OPENCV_LINK_PATHS', 'C:\\tools\\opencv\\build\\x64\\vc16\\lib', 'Machine')"@
}

/// Writes the script that points the OpenCV environment variables at the
/// library of the given version.
pub fn opencv_dirs_script(version: u32) -> (script: String)
    ensures
        script@ == opencv_dirs_text(version),
{
    let mut script = String::new();
    script.append("[Environment]::SetEnvironmentVariable('OPENCV_LINK_LIBS', 'opencv_world");
    let number = decimal(version);
    script.append(number.as_str());
    script.append(
        "', 'Machine')\n        [Environment]::SetEnvironmentVariable('OPENCV_INCLUDE_PATHS', 'C:\\tools\\opencv\\build\\include', 'Machine')\n        [Environment]::SetEnvironmentVariable('OPENCV_LINK_PATHS', 'C:\\tools\\opencv\\build\\x64\\vc16\\lib', 'Machine')",
    );
    assert(script@ =~= opencv_dirs_text(version));
    script
}

/// The script of a step that needs nothing looked up first; `None` for the
/// steps whose script depends on the machine.
pub fn fixed_script(step: SetupStep) -> (script: Option<&'static str>)
    ensures
        match step {
            SetupStep::InstallChocolatey => script is Some && script->Some_0@
                == "Set-ExecutionPolicy Bypass -Scope Process -Force; [System.Net.ServicePointManager]::SecurityProtocol = [System.Net.ServicePointManager]::SecurityProtocol -bor 3072; iex ((New-Object System.Net.WebClient).DownloadString('https://community.chocolatey.org/install.ps1'))"@,
            SetupStep::InstallEquipments => script is Some && script->Some_0@
                == "choco install llvm opencv"@,
            SetupStep::AddOpencvBin => script is Some && script->Some_0@
                == "[Environment]::SetEnvironmentVariable('Path', [Environment]::GetEnvironmentVariable('Path', 'Machine') + ';C:\\tools\\opencv\\build\\x64\\vc16\\bin', 'Machine')"@,
            SetupStep::SetOpencvDirs => script is None,
            SetupStep::WriteServerCode => script is None,
        },
{
    match step {
        SetupStep::InstallChocolatey => Some(
            "Set-ExecutionPolicy Bypass -Scope Process -Force; [System.Net.ServicePointManager]::SecurityProtocol = [System.Net.ServicePointManager]::SecurityProtocol -bor 3072; iex ((New-Object System.Net.WebClient).DownloadString('https://community.chocolatey.org/install.ps1'))",
        ),
        SetupStep::InstallEquipments => Some("choco install llvm opencv"),
        SetupStep::AddOpencvBin => Some(
            "[Environment]::SetEnvironmentVariable('Path', [Environment]::GetEnvironmentVariable('Path', 'Machine') + ';C:\\tools\\opencv\\build\\x64\\vc16\\bin', 'Machine')",
        ),
        SetupStep::SetOpencvDirs => None,
        SetupStep::WriteServerCode => None,
    }
}

} // verus!
