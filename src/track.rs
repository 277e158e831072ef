//! Track metadata, the output encoding, and the file name each track gets.
use vstd::prelude::*;
use crate::names::{make_filename_compatible, sanitized};

verus! {

/// Tags of one track, embedded into its encoded file.
pub struct TrackMetadata {
    pub artists: Vec<String>,
    pub track_name: String,
    pub album: String,
}

impl TrackMetadata {
    pub fn new(artists: Vec<String>, track_name: String, album: String) -> (m: TrackMetadata)
        ensures
            m.artists@ == artists@,
            m.track_name@ == track_name@,
            m.album@ == album@,
    {
        TrackMetadata { artists, track_name, album }
    }
}

/// Output format of a run, chosen once.
#[derive(Clone, Copy, Debug)]
pub enum Encoding {
    Flac { compression: Option<u32> },
    Mp3,
}

/// Compression level used when a lossless encoding leaves it unset.
pub const DEFAULT_COMPRESSION: u32 = 4;

/// The extension of files written with `encoding`.
pub open spec fn extension_chars(encoding: Encoding) -> Seq<char> {
    match encoding {
        Encoding::Flac { .. } => seq!['f', 'l', 'a', 'c'],
        Encoding::Mp3 => seq!['m', 'p', '3'],
    }
}

/// The compression level a sink is given, if the encoding has one.
pub open spec fn compression_of(encoding: Encoding) -> Option<u32> {
    match encoding {
        Encoding::Flac { compression: Some(c) } => Some(c),
        Encoding::Flac { compression: None } => Some(DEFAULT_COMPRESSION),
        Encoding::Mp3 => None,
    }
}

pub fn extension_from_encoding(encoding: Encoding) -> (ext: &'static str)
    ensures
        ext@ == extension_chars(encoding),
{
    proof {
        reveal_strlit("flac");
        reveal_strlit("mp3");
    }
    match encoding {
        Encoding::Flac { .. } => "flac",
        Encoding::Mp3 => "mp3",
    }
}

pub fn compression_for(encoding: Encoding) -> (c: Option<u32>)
    ensures
        c == compression_of(encoding),
{
    match encoding {
        Encoding::Flac { compression } => match compression {
            Some(c) => Some(c),
            None => Some(DEFAULT_COMPRESSION),
        },
        Encoding::Mp3 => None,
    }
}

pub open spec fn names_of(v: Seq<String>) -> Seq<Seq<char>> {
    v.map_values(|s: String| s@)
}

pub open spec fn comma() -> Seq<char> {
    seq![',', ' ']
}

pub open spec fn dash() -> Seq<char> {
    seq![' ', '-', ' ']
}

/// The names joined with `", "` between them.
pub open spec fn joined(names: Seq<Seq<char>>) -> Seq<char>
    decreases names.len(),
{
    if names.len() == 0 {
        Seq::empty()
    } else if names.len() == 1 {
        names[0]
    } else {
        joined(names.drop_last()) + comma() + names.last()
    }
}

/// Each name followed by `", "`.
pub open spec fn each_with_comma(names: Seq<Seq<char>>) -> Seq<char>
    decreases names.len(),
{
    if names.len() == 0 {
        Seq::empty()
    } else {
        each_with_comma(names.drop_last()) + names.last() + comma()
    }
}

/// `s` with every trailing `", "` removed.
pub open spec fn trim_commas(s: Seq<char>) -> Seq<char>
    decreases s.len(),
{
    if s.len() >= 2 && s[s.len() - 2] == ',' && s[s.len() - 1] == ' ' {
        trim_commas(s.subrange(0, s.len() - 2))
    } else {
        s
    }
}

/// How the artists appear in a file name: a single artist as given, several
/// each followed by `", "` with the trailing separators trimmed.
pub open spec fn artist_label_of(names: Seq<Seq<char>>) -> Seq<char> {
    if names.len() > 1 {
        trim_commas(each_with_comma(names))
    } else {
        names[0]
    }
}

pub open spec fn digit_char(d: int) -> char {
    seq!['0', '1', '2', '3', '4', '5', '6', '7', '8', '9'][d]
}

/// Decimal digits of `n`, without leading zeros.
pub open spec fn decimal(n: nat) -> Seq<char>
    decreases n,
{
    if n < 10 {
        seq![digit_char(n as int)]
    } else {
        decimal(n / 10).push(digit_char((n % 10) as int))
    }
}

/// `n` in decimal, zero-padded to at least three digits.
pub open spec fn padded3(n: nat) -> Seq<char> {
    if n < 10 {
        seq!['0', '0'] + decimal(n)
    } else if n < 100 {
        seq!['0'] + decimal(n)
    } else {
        decimal(n)
    }
}

/// The base name (without extension) of the track at `index` in the run:
/// `"<artists> - <title>"` sanitised, prefixed with its 1-based position when
/// the run is ordered.
pub open spec fn base_name(index: nat, ordered: bool, artist: Seq<char>, title: Seq<char>) -> Seq<char> {
    let clean = sanitized(artist + dash() + title);
    if ordered {
        padded3(index + 1) + dash() + clean
    } else {
        clean
    }
}

/// The full file name: the base name, a dot and the encoding's extension.
pub open spec fn file_name_of(
    index: nat,
    ordered: bool,
    artist: Seq<char>,
    title: Seq<char>,
    encoding: Encoding,
) -> Seq<char> {
    base_name(index, ordered, artist, title) + seq!['.'] + extension_chars(encoding)
}

/// The artists joined with `", "`, as written to the artist tag.
pub fn join_artists(artists: &Vec<String>) -> (s: String)
    ensures
        s@ == joined(names_of(artists@)),
{
    let mut s = String::new();
    let sep = ", ";
    proof {
        reveal_strlit(", ");
    }
    let mut i: usize = 0;
    while i < artists.len()
        invariant
            sep@ == comma(),
            i <= artists.len(),
            s@ == joined(names_of(artists@).subrange(0, i as int)),
        decreases artists.len() - i,
    {
        proof {
            let pre = names_of(artists@).subrange(0, i as int + 1);
            assert(pre.drop_last() =~= names_of(artists@).subrange(0, i as int));
        }
        if i > 0 {
            s.append(sep);
        }
        s.append(artists[i].as_str());
        i = i + 1;
    }
    proof {
        assert(names_of(artists@).subrange(0, artists@.len() as int) =~= names_of(artists@));
    }
    s
}

fn trim_trailing_commas(s: &str) -> (r: String)
    ensures
        r@ == trim_commas(s@),
{
    let mut end: usize = s.unicode_len();
    assert(s@.subrange(0, end as int) =~= s@);
    while end >= 2 && s.get_char(end - 2) == ',' && s.get_char(end - 1) == ' '
        invariant
            end <= s@.len(),
            trim_commas(s@.subrange(0, end as int)) == trim_commas(s@),
        decreases end,
    {
        assert(s@.subrange(0, end as int).subrange(0, end as int - 2) =~= s@.subrange(0, end as int - 2));
        end = end - 2;
    }
    String::from_str(s.substring_char(0, end))
}

/// The artists as they appear in a file name.
pub fn artist_label(artists: &Vec<String>) -> (s: String)
    requires
        artists.len() >= 1,
    ensures
        s@ == artist_label_of(names_of(artists@)),
{
    if artists.len() > 1 {
        let mut tmp = String::new();
        let sep = ", ";
        proof {
            reveal_strlit(", ");
        }
        let mut i: usize = 0;
        while i < artists.len()
            invariant
                sep@ == comma(),
                i <= artists.len(),
                tmp@ == each_with_comma(names_of(artists@).subrange(0, i as int)),
            decreases artists.len() - i,
        {
            proof {
                let pre = names_of(artists@).subrange(0, i as int + 1);
                assert(pre.drop_last() =~= names_of(artists@).subrange(0, i as int));
            }
            tmp.append(artists[i].as_str());
            tmp.append(sep);
            i = i + 1;
        }
        proof {
            assert(names_of(artists@).subrange(0, artists@.len() as int) =~= names_of(artists@));
        }
        trim_trailing_commas(tmp.as_str())
    } else {
        artists[0].clone()
    }
}

fn append_decimal(out: &mut String, n: u64)
    ensures
        final(out)@ == old(out)@ + decimal(n as nat),
    decreases n,
{
    let digits = "0123456789";
    proof {
        reveal_strlit("0123456789");
    }
    if n >= 10 {
        append_decimal(out, n / 10);
    }
    let d = (n % 10) as usize;
    out.append(digits.substring_char(d, d + 1));
    proof {
        assert(digits@.subrange(d as int, d as int + 1) =~= seq![digit_char(d as int)]);
        if n >= 10 {
            assert(decimal(n as nat) =~= decimal((n / 10) as nat) + seq![digit_char(d as int)]);
        } else {
            assert(decimal(n as nat) =~= seq![digit_char(d as int)]);
        }
    }
}

/// `n` zero-padded to at least three decimal digits.
pub fn pad_three(n: u64) -> (s: String)
    ensures
        s@ == padded3(n as nat),
{
    let mut s = String::new();
    proof {
        reveal_strlit("00");
        reveal_strlit("0");
    }
    if n < 10 {
        s.append("00");
    } else if n < 100 {
        s.append("0");
    }
    append_decimal(&mut s, n);
    s
}

/// The base name of the track at `index` (0-based) of a run.
pub fn track_base_name(index: usize, ordered: bool, artist: &str, title: &str) -> (s: String)
    requires
        index < u64::MAX,
    ensures
        s@ == base_name(index as nat, ordered, artist@, title@),
{
    let sep = " - ";
    proof {
        reveal_strlit(" - ");
    }
    let mut full = String::from_str(artist);
    full.append(sep);
    full.append(title);
    assert(sep@ =~= dash());
    assert(full@ =~= artist@ + dash() + title@);
    let clean = make_filename_compatible(full.as_str());
    if ordered {
        let mut s = pad_three(index as u64 + 1);
        s.append(sep);
        s.append(clean.as_str());
        assert(s@ =~= padded3(index as nat + 1) + dash() + clean@);
        s
    } else {
        clean
    }
}

/// The file name of the track at `index` (0-based) of a run.
pub fn track_file_name(
    index: usize,
    ordered: bool,
    artist: &str,
    title: &str,
    encoding: Encoding,
) -> (s: String)
    requires
        index < u64::MAX,
    ensures
        s@ == file_name_of(index as nat, ordered, artist@, title@, encoding),
{
    let mut s = track_base_name(index, ordered, artist, title);
    proof {
        reveal_strlit(".");
    }
    s.append(".");
    s.append(extension_from_encoding(encoding));
    s
}

} // verus!
