//! The preset patterns: text files that were packed into the program, found
//! by their names.

use include_dir::Dir;
use vstd::prelude::*;
use vstd::string::StringExecFns;

verus! {

/// A directory that include_dir packed into the program.
#[verifier::external_type_specification]
#[verifier::external_body]
pub struct ExDir<'a>(Dir<'a>);

/// What a packed directory holds: for the path of each of its files whose
/// bytes are text in UTF-8, that text.
pub uninterp spec fn dir_texts(dir: Dir<'static>) -> Map<Seq<char>, Seq<char>>;

/// The number of presets. They are numbered from one on.
pub const PRESET_COUNT: u32 = 513;

/// Whether a character may stand in the name of a preset: a digit, a small
/// letter or a full stop.
pub open spec fn is_name_char(ch: char) -> bool {
    ('0' <= ch && ch <= '9') || ('a' <= ch && ch <= 'z') || ch == '.'
}

/// Whether a name is made of such characters alone. A name of this kind has
/// one part and means the same path on every system.
pub open spec fn is_plain_name(name: Seq<char>) -> bool {
    forall|i: int| 0 <= i < name.len() ==> is_name_char(#[trigger] name[i])
}

/// The text of the file that the directory holds under `name`, by
/// include_dir's `Dir::get_file` and `File::contents_utf8`: the text where
/// there is such a file and its bytes are UTF-8, nothing otherwise.
/// include_dir compares paths part by part, so the contract is claimed of
/// plain names only.
#[verifier::external_body]
fn text_in(dir: &Dir<'static>, name: &str) -> (text: Option<String>)
    requires
        is_plain_name(name@),
    ensures
        text matches Some(t) ==> dir_texts(*dir).contains_key(name@) && dir_texts(*dir)[name@]
            == t@,
        text is None ==> !dir_texts(*dir).contains_key(name@),
{
    match dir.get_file(name) {
        Some(file) => match file.contents_utf8() {
            Some(text) => Some(text.to_owned()),
            None => None,
        },
        None => None,
    }
}

/// The character for a digit.
pub open spec fn digit_char(d: int) -> char {
    if d == 0 {
        '0'
    } else if d == 1 {
        '1'
    } else if d == 2 {
        '2'
    } else if d == 3 {
        '3'
    } else if d == 4 {
        '4'
    } else if d == 5 {
        '5'
    } else if d == 6 {
        '6'
    } else if d == 7 {
        '7'
    } else if d == 8 {
        '8'
    } else {
        '9'
    }
}

/// A number written in decimal digits, without leading zeros.
pub open spec fn decimal(n: nat) -> Seq<char>
    decreases n,
{
    if n < 10 {
        seq![digit_char(n as int)]
    } else {
        decimal(n / 10).push(digit_char((n % 10) as int))
    }
}

/// The name of the file that holds preset number `number`: the word
/// `pattern`, the number in decimal digits, and the ending `.txt`.
pub open spec fn preset_name_of(number: nat) -> Seq<char> {
    seq!['p', 'a', 't', 't', 'e', 'r', 'n'] + decimal(number) + seq!['.', 't', 'x', 't']
}

/// The digits of a number are characters of a plain name.
pub proof fn lemma_decimal_is_plain(n: nat)
    ensures
        is_plain_name(decimal(n)),
    decreases n,
{
    if n >= 10 {
        lemma_decimal_is_plain(n / 10);
    }
}

/// The name of a preset is a plain name.
pub proof fn lemma_preset_name_is_plain(number: nat)
    ensures
        is_plain_name(preset_name_of(number)),
{
    lemma_decimal_is_plain(number);
}

/// The text of one digit.
fn digit_text(d: u32) -> (text: &'static str)
    requires
        d < 10,
    ensures
        text@ == seq![digit_char(d as int)],
{
    proof {
        reveal_strlit("0");
        reveal_strlit("1");
        reveal_strlit("2");
        reveal_strlit("3");
        reveal_strlit("4");
        reveal_strlit("5");
        reveal_strlit("6");
        reveal_strlit("7");
        reveal_strlit("8");
        reveal_strlit("9");
    }
    let text = if d == 0 {
        "0"
    } else if d == 1 {
        "1"
    } else if d == 2 {
        "2"
    } else if d == 3 {
        "3"
    } else if d == 4 {
        "4"
    } else if d == 5 {
        "5"
    } else if d == 6 {
        "6"
    } else if d == 7 {
        "7"
    } else if d == 8 {
        "8"
    } else {
        "9"
    };
    assert(text@ =~= seq![digit_char(d as int)]);
    text
}

/// Writes a number at the end of a text, in decimal digits.
fn push_decimal(text: &mut String, n: u32)
    ensures
        final(text)@ == old(text)@ + decimal(n as nat),
    decreases n,
{
    if n >= 10 {
        push_decimal(text, n / 10);
    }
    text.append(digit_text(n % 10));
    assert(text@ =~= old(text)@ + decimal(n as nat));
}

/// The name of the file that holds preset number `number`.
pub fn preset_name(number: u32) -> (name: String)
    ensures
        name@ == preset_name_of(number as nat),
{
    proof {
        reveal_strlit("pattern");
        reveal_strlit(".txt");
    }
    let mut name = String::from_str("pattern");
    push_decimal(&mut name, number);
    name.append(".txt");
    assert(name@ =~= preset_name_of(number as nat));
    name
}

/// Whether the directory holds a text for each of the first `count`
/// presets.
pub open spec fn holds_presets(dir: Dir<'static>, count: int) -> bool {
    forall|n: nat| 1 <= n <= count ==> dir_texts(dir).contains_key(#[trigger] preset_name_of(n))
}

/// Whether `presets` are the first presets of the directory, in the order
/// of their numbers, each with its name and its text.
pub open spec fn presets_of(presets: Seq<(String, String)>, dir: Dir<'static>) -> bool {
    forall|k: int|
        0 <= k < presets.len() ==> {
            &&& (#[trigger] presets[k]).0@ == preset_name_of((k + 1) as nat)
            &&& dir_texts(dir).contains_key(preset_name_of((k + 1) as nat))
            &&& presets[k].1@ == dir_texts(dir)[preset_name_of((k + 1) as nat)]
        }
}

/// The presets of a packed directory, numbers 1 to `PRESET_COUNT`, each
/// with its name and its text. Nothing is handed back unless the directory
/// holds a text for every one of them.
pub fn read_presets(dir: &Dir<'static>) -> (result: Option<Vec<(String, String)>>)
    ensures
        result is Some <==> holds_presets(*dir, PRESET_COUNT as int),
        result matches Some(presets) ==> presets@.len() == PRESET_COUNT && presets_of(
            presets@,
            *dir,
        ),
{
    let mut result: Vec<(String, String)> = Vec::new();
    let mut i: u32 = 1;
    while i <= PRESET_COUNT
        invariant
            1 <= i <= PRESET_COUNT + 1,
            result@.len() == i - 1,
            holds_presets(*dir, i - 1),
            presets_of(result@, *dir),
        decreases PRESET_COUNT + 1 - i,
    {
        let file_name = preset_name(i);
        proof {
            lemma_preset_name_is_plain(i as nat);
        }
        match text_in(dir, file_name.as_str()) {
            Some(body) => {
                result.push((file_name, body));
            },
            None => {
                assert(!dir_texts(*dir).contains_key(preset_name_of(i as nat)));
                return None;
            },
        }
        i = i + 1;
    }
    Some(result)
}

} // verus!
