//! The local steps of a run: extracting the audio, splitting the video into
//! chunks, and combining the encoded chunks with the audio.
use vstd::prelude::*;
use vstd::string::*;
use crate::naming::{last_index, last_index_of, lemma_last_index_bounds};
use crate::order::views;

verus! {

/// Name of the file the split step writes, numbered from zero.
pub const CHUNK_PATTERN: &'static str = "chunk_%03d.mxf";

/// The decimal digit for `d`.
pub open spec fn digit_of(d: nat) -> Seq<char> {
    if d == 0 {
        "0"@
    } else if d == 1 {
        "1"@
    } else if d == 2 {
        "2"@
    } else if d == 3 {
        "3"@
    } else if d == 4 {
        "4"@
    } else if d == 5 {
        "5"@
    } else if d == 6 {
        "6"@
    } else if d == 7 {
        "7"@
    } else if d == 8 {
        "8"@
    } else {
        "9"@
    }
}

/// `n` written in decimal, without leading zeros.
pub open spec fn decimal_of(n: nat) -> Seq<char>
    decreases n,
{
    if n < 10 {
        digit_of(n)
    } else {
        decimal_of(n / 10) + digit_of(n % 10)
    }
}

/// The value of a string of decimal digits.
pub open spec fn digits_value(s: Seq<char>) -> int
    decreases s.len(),
{
    if s.len() == 0 {
        0
    } else {
        digits_value(s.drop_last()) * 10 + (s.last() as int - '0' as int)
    }
}

pub open spec fn is_digit(c: char) -> bool {
    '0' <= c && c <= '9'
}

/// A chunk length as the user writes it: one or more decimal digits whose
/// value fits in 64 bits.
pub open spec fn valid_length(s: Seq<char>) -> bool {
    &&& s.len() > 0
    &&& forall|i: int| 0 <= i < s.len() ==> is_digit(#[trigger] s[i])
    &&& digits_value(s) <= u64::MAX
}

fn digit_str(d: u64) -> (r: &'static str)
    requires
        d < 10,
    ensures
        r@ == digit_of(d as nat),
{
    if d == 0 {
        "0"
    } else if d == 1 {
        "1"
    } else if d == 2 {
        "2"
    } else if d == 3 {
        "3"
    } else if d == 4 {
        "4"
    } else if d == 5 {
        "5"
    } else if d == 6 {
        "6"
    } else if d == 7 {
        "7"
    } else if d == 8 {
        "8"
    } else {
        "9"
    }
}

/// `n` in decimal.
pub fn decimal(n: u64) -> (r: String)
    ensures
        r@ == decimal_of(n as nat),
    decreases n,
{
    if n < 10 {
        String::from_str(digit_str(n))
    } else {
        let mut r = decimal(n / 10);
        r.append(digit_str(n % 10));
        r
    }
}

pub proof fn lemma_digits_value_nonneg(s: Seq<char>)
    requires
        forall|i: int| 0 <= i < s.len() ==> is_digit(#[trigger] s[i]),
    ensures
        digits_value(s) >= 0,
    decreases s.len(),
{
    if s.len() > 0 {
        lemma_digits_value_nonneg(s.drop_last());
    }
}

pub proof fn lemma_digits_value_grows(s: Seq<char>, i: int)
    requires
        0 <= i <= s.len(),
        forall|j: int| 0 <= j < s.len() ==> is_digit(#[trigger] s[j]),
    ensures
        digits_value(s.take(i)) <= digits_value(s),
    decreases s.len() - i,
{
    if i < s.len() {
        lemma_digits_value_grows(s, i + 1);
        assert(s.take(i + 1).drop_last() =~= s.take(i));
        lemma_digits_value_nonneg(s.take(i));
    } else {
        assert(s.take(i) =~= s);
    }
}

/// Reads a chunk length in seconds: `None` unless `s` is a valid length.
pub fn parse_length(s: &str) -> (r: Option<u64>)
    ensures
        match r {
            Some(n) => valid_length(s@) && n as int == digits_value(s@),
            None => !valid_length(s@),
        },
{
    let n = s.unicode_len();
    if n == 0 {
        return None;
    }
    let mut value: u64 = 0;
    let mut i: usize = 0;
    assert(s@.take(0) =~= Seq::<char>::empty());
    while i < n
        invariant
            n == s@.len(),
            i <= n,
            forall|j: int| 0 <= j < i ==> is_digit(#[trigger] s@[j]),
            value as int == digits_value(s@.take(i as int)),
        decreases n - i,
    {
        let c = s.get_char(i);
        if !('0' <= c && c <= '9') {
            return None;
        }
        let d = (c as u32 - '0' as u32) as u64;
        assert(s@.take(i + 1).drop_last() =~= s@.take(i as int));
        if value > (u64::MAX - d) / 10 {
            proof {
                assert(digits_value(s@.take(i + 1)) == value * 10 + d);
                assert(value * 10 + d > u64::MAX) by (nonlinear_arith)
                    requires
                        value > (u64::MAX - d) / 10,
                        d < 10,
                ;
                if forall|j: int| 0 <= j < s@.len() ==> is_digit(#[trigger] s@[j]) {
                    lemma_digits_value_grows(s@, i + 1);
                }
            }
            return None;
        }
        assert(value * 10 + d <= u64::MAX) by (nonlinear_arith)
            requires
                value <= (u64::MAX - d) / 10,
                d < 10,
        ;
        value = value * 10 + d;
        i = i + 1;
    }
    assert(s@.take(n as int) =~= s@);
    Some(value)
}

/// The extension of the file at `path`: what follows the last `.` of its
/// final component, where that `.` does not start the component.
pub open spec fn extension_of(path: Seq<char>) -> Option<Seq<char>> {
    let name = path.subrange(last_index(path, '/') + 1, path.len() as int);
    if last_index(name, '.') > 0 {
        Some(name.subrange(last_index(name, '.') + 1, name.len() as int))
    } else {
        None
    }
}

/// The extension of the file at `path`, if it has one.
pub fn extension(path: &str) -> (r: Option<String>)
    ensures
        match r {
            Some(e) => extension_of(path@) == Some(e@),
            None => extension_of(path@) is None,
        },
{
    proof {
        lemma_last_index_bounds(path@, '/');
    }
    let n = path.unicode_len();
    let start = match last_index_of(path, '/') {
        Some(i) => i + 1,
        None => 0,
    };
    let name = path.substring_char(start, n);
    proof {
        lemma_last_index_bounds(name@, '.');
    }
    match last_index_of(name, '.') {
        Some(i) => {
            if i > 0 {
                let len = name.unicode_len();
                Some(String::from_str(name.substring_char(i + 1, len)))
            } else {
                None
            }
        },
        None => None,
    }
}

/// `dir` joined with `name`.
pub open spec fn join_of(dir: Seq<char>, name: Seq<char>) -> Seq<char> {
    dir + "/"@ + name
}

/// The path of the entry `name` in the directory `dir`.
pub fn join(dir: &str, name: &str) -> (r: String)
    ensures
        r@ == join_of(dir@, name@),
{
    let mut r = String::from_str(dir);
    r.append("/");
    r.append(name);
    proof {
        assert(r@ =~= join_of(dir@, name@));
    }
    r
}

/// The command that extracts the audio of `input` and encodes it into `output`.
pub open spec fn extract_audio_of(input: Seq<char>, output: Seq<char>) -> Seq<Seq<char>> {
    seq![
        "ffmpeg"@,
        "-y"@,
        "-i"@,
        input,
        "-vn"@,
        "-c:a"@,
        "aac"@,
        "-b:a"@,
        "192k"@,
        output,
    ]
}

/// The command that splits the video of `input` into chunks of about
/// `seconds` seconds, written into `output_dir`.
pub open spec fn split_video_of(input: Seq<char>, output_dir: Seq<char>, seconds: nat) -> Seq<
    Seq<char>,
> {
    seq![
        "ffmpeg"@,
        "-y"@,
        "-i"@,
        input,
        "-an"@,
        "-c"@,
        "copy"@,
        "-f"@,
        "segment"@,
        "-segment_time"@,
        decimal_of(seconds),
        join_of(output_dir, CHUNK_PATTERN@),
    ]
}

/// The command that joins the chunks listed in `file_list` with `audio`
/// into `output`.
pub open spec fn combine_of(file_list: Seq<char>, audio: Seq<char>, output: Seq<char>) -> Seq<
    Seq<char>,
> {
    seq![
        "ffmpeg"@,
        "-y"@,
        "-f"@,
        "concat"@,
        "-safe"@,
        "0"@,
        "-i"@,
        file_list,
        "-i"@,
        audio,
        "-c"@,
        "copy"@,
        "-movflags"@,
        "+faststart"@,
        output,
    ]
}

fn words(parts: &[&str]) -> (r: Vec<String>)
    ensures
        r@.len() == parts@.len(),
        forall|i: int| 0 <= i < parts@.len() ==> (#[trigger] r@[i])@ == parts@[i]@,
{
    let mut r: Vec<String> = Vec::new();
    let mut i: usize = 0;
    while i < parts.len()
        invariant
            i <= parts@.len(),
            r@.len() == i,
            forall|j: int| 0 <= j < i ==> (#[trigger] r@[j])@ == parts@[j]@,
        decreases parts@.len() - i,
    {
        r.push(String::from_str(parts[i]));
        i = i + 1;
    }
    r
}

/// The command that extracts and encodes the audio of `input` into `output`.
pub fn extract_audio(input: &str, output: &str) -> (r: Vec<String>)
    ensures
        views(r@) == extract_audio_of(input@, output@),
{
    let r = words(&["ffmpeg", "-y", "-i", input, "-vn", "-c:a", "aac", "-b:a", "192k", output]);
    assert(views(r@) =~= extract_audio_of(input@, output@));
    r
}

/// The command that splits `input` into chunks of about `seconds` seconds in
/// `output_dir`.
pub fn split_video(input: &str, output_dir: &str, seconds: u64) -> (r: Vec<String>)
    ensures
        views(r@) == split_video_of(input@, output_dir@, seconds as nat),
{
    let time = decimal(seconds);
    let target = join(output_dir, CHUNK_PATTERN);
    let r = words(
        &[
            "ffmpeg",
            "-y",
            "-i",
            input,
            "-an",
            "-c",
            "copy",
            "-f",
            "segment",
            "-segment_time",
            time.as_str(),
            target.as_str(),
        ],
    );
    assert(views(r@) =~= split_video_of(input@, output_dir@, seconds as nat));
    r
}

/// The command that joins the chunks listed in `file_list` with `audio` into
/// `output`.
pub fn combine(file_list: &str, audio: &str, output: &str) -> (r: Vec<String>)
    ensures
        views(r@) == combine_of(file_list@, audio@, output@),
{
    let r = words(
        &[
            "ffmpeg",
            "-y",
            "-f",
            "concat",
            "-safe",
            "0",
            "-i",
            file_list,
            "-i",
            audio,
            "-c",
            "copy",
            "-movflags",
            "+faststart",
            output,
        ],
    );
    assert(views(r@) =~= combine_of(file_list@, audio@, output@));
    r
}

/// The line of a concatenation list that names `path`.
pub open spec fn list_line_of(path: Seq<char>) -> Seq<char> {
    "file '"@ + path + "'\n"@
}

/// The concatenation list naming, in order, the files `names` of `dir`.
pub open spec fn file_list_of(dir: Seq<char>, names: Seq<Seq<char>>) -> Seq<char>
    decreases names.len(),
{
    if names.len() == 0 {
        Seq::empty()
    } else {
        file_list_of(dir, names.drop_last()) + list_line_of(join_of(dir, names.last()))
    }
}

/// The concatenation list naming, in order, the files `names` of `dir`.
pub fn file_list(dir: &str, names: &Vec<String>) -> (r: String)
    ensures
        r@ == file_list_of(dir@, views(names@)),
{
    let mut r = String::new();
    let mut i: usize = 0;
    while i < names.len()
        invariant
            i <= names@.len(),
            r@ == file_list_of(dir@, views(names@).take(i as int)),
        decreases names@.len() - i,
    {
        let path = join(dir, names[i].as_str());
        r.append("file '");
        r.append(path.as_str());
        r.append("'\n");
        proof {
            assert(views(names@).take(i + 1).drop_last() =~= views(names@).take(i as int));
        }
        i = i + 1;
    }
    assert(views(names@).take(names@.len() as int) =~= views(names@));
    r
}

} // verus!
