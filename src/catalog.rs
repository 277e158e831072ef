//! The destination directory seen as a list of entry names: the existence
//! guard that decides whether a track must be downloaded, and the reconciler
//! that picks the audio files no longer in the run.
use vstd::prelude::*;
use crate::names::{keeps_char, sanitized, extension_of, file_stem, file_extension, last_dot, stem_of};
use crate::track::{artist_label, artist_label_of, track_file_name, dash, names_of, file_name_of, base_name, extension_chars, Encoding};

verus! {

/// The extensions the reconciler treats as audio: mp3, flac, wav and ogg.
pub open spec fn is_audio_extension(e: Seq<char>) -> bool {
    e == seq!['m', 'p', '3'] || e == seq!['f', 'l', 'a', 'c'] || e == seq!['w', 'a', 'v']
        || e == seq!['o', 'g', 'g']
}

pub open spec fn has_audio_extension(name: Seq<char>) -> bool {
    match extension_of(name) {
        Some(e) => is_audio_extension(e),
        None => false,
    }
}

/// Whether some entry has `base` as its stem, whatever its extension.
pub open spec fn stem_present(entries: Seq<Seq<char>>, base: Seq<char>) -> bool {
    exists|i: int| 0 <= i < entries.len() && #[trigger] stem_of(entries[i]) == base
}

/// An entry is stale when it is an audio file whose stem the run did not
/// produce or confirm.
pub open spec fn is_stale(name: Seq<char>, known: Seq<Seq<char>>) -> bool {
    has_audio_extension(name) && !known.contains(stem_of(name))
}

/// The stale entries, in directory order.
pub open spec fn stale_names(entries: Seq<Seq<char>>, known: Seq<Seq<char>>) -> Seq<Seq<char>>
    decreases entries.len(),
{
    if entries.len() == 0 {
        Seq::empty()
    } else if is_stale(entries.last(), known) {
        stale_names(entries.drop_last(), known).push(entries.last())
    } else {
        stale_names(entries.drop_last(), known)
    }
}

fn chars_equal(a: &str, b: &str) -> (r: bool)
    ensures
        r == (a@ == b@),
{
    let n = a.unicode_len();
    if n != b.unicode_len() {
        return false;
    }
    let mut i: usize = 0;
    while i < n
        invariant
            n == a@.len(),
            n == b@.len(),
            i <= n,
            forall|k: int| 0 <= k < i ==> a@[k] == b@[k],
        decreases n - i,
    {
        if a.get_char(i) != b.get_char(i) {
            return false;
        }
        i = i + 1;
    }
    assert(a@ =~= b@);
    true
}

fn is_audio(e: &str) -> (r: bool)
    ensures
        r == is_audio_extension(e@),
{
    proof {
        reveal_strlit("mp3");
        reveal_strlit("flac");
        reveal_strlit("wav");
        reveal_strlit("ogg");
        assert("mp3"@ =~= seq!['m', 'p', '3']);
        assert("flac"@ =~= seq!['f', 'l', 'a', 'c']);
        assert("wav"@ =~= seq!['w', 'a', 'v']);
        assert("ogg"@ =~= seq!['o', 'g', 'g']);
    }
    chars_equal(e, "mp3") || chars_equal(e, "flac") || chars_equal(e, "wav") || chars_equal(e, "ogg")
}

/// Whether `name` ends in one of the audio extensions.
pub fn is_audio_file(name: &str) -> (r: bool)
    ensures
        r == has_audio_extension(name@),
{
    match file_extension(name) {
        Some(e) => is_audio(e.as_str()),
        None => false,
    }
}

/// The existence guard: whether an entry of the destination directory has the
/// stem `base`, with any extension or none.
pub fn file_exists(entries: &Vec<String>, base: &str) -> (r: bool)
    ensures
        r == stem_present(names_of(entries@), base@),
{
    let target = String::from_str(base);
    let mut i: usize = 0;
    while i < entries.len()
        invariant
            target@ == base@,
            i <= entries.len(),
            forall|k: int| 0 <= k < i ==> stem_of(#[trigger] names_of(entries@)[k]) != base@,
        decreases entries.len() - i,
    {
        let stem = file_stem(entries[i].as_str());
        if stem == target {
            assert(stem_of(names_of(entries@)[i as int]) == base@);
            return true;
        }
        i = i + 1;
    }
    false
}

fn contains_name(known: &Vec<String>, name: &String) -> (r: bool)
    ensures
        r == names_of(known@).contains(name@),
{
    let mut i: usize = 0;
    while i < known.len()
        invariant
            i <= known.len(),
            forall|k: int| 0 <= k < i ==> #[trigger] names_of(known@)[k] != name@,
        decreases known.len() - i,
    {
        if known[i] == *name {
            assert(names_of(known@)[i as int] == name@);
            return true;
        }
        i = i + 1;
    }
    false
}

/// The reconciler's choice: the entries to delete, which are the audio files
/// whose stem is not among the `known` base names, in directory order.
/// Entries of any other extension are never chosen.
pub fn stale_entries(entries: &Vec<String>, known: &Vec<String>) -> (stale: Vec<String>)
    ensures
        names_of(stale@) == stale_names(names_of(entries@), names_of(known@)),
{
    let mut stale: Vec<String> = Vec::new();
    let mut i: usize = 0;
    while i < entries.len()
        invariant
            i <= entries.len(),
            names_of(stale@) == stale_names(names_of(entries@).subrange(0, i as int), names_of(known@)),
        decreases entries.len() - i,
    {
        let name = &entries[i];
        proof {
            let pre = names_of(entries@).subrange(0, i as int + 1);
            assert(pre.drop_last() =~= names_of(entries@).subrange(0, i as int));
            assert(pre.last() == name@);
        }
        if is_audio_file(name.as_str()) {
            let stem = file_stem(name.as_str());
            if !contains_name(known, &stem) {
                let ghost before = stale@;
                stale.push(name.clone());
                assert(names_of(stale@) =~= names_of(before).push(name@));
            }
        }
        i = i + 1;
    }
    assert(names_of(entries@).subrange(0, entries@.len() as int) =~= names_of(entries@));
    stale
}

/// The last dot of `base.ext` is the one before `ext` when `ext` has no dot.
pub proof fn lemma_last_dot_of_joined(base: Seq<char>, ext: Seq<char>)
    requires
        forall|k: int| 0 <= k < ext.len() ==> ext[k] != '.',
    ensures
        last_dot(base + seq!['.'] + ext) == base.len(),
    decreases ext.len(),
{
    let s = base + seq!['.'] + ext;
    if ext.len() == 0 {
        assert(s.last() == '.');
    } else {
        assert(s.drop_last() =~= base + seq!['.'] + ext.drop_last());
        lemma_last_dot_of_joined(base, ext.drop_last());
    }
}

/// Sanitising works character by character, so it distributes over `+`.
pub proof fn lemma_sanitized_concat(a: Seq<char>, b: Seq<char>)
    ensures
        sanitized(a + b) == sanitized(a) + sanitized(b),
    decreases b.len(),
{
    if b.len() == 0 {
        assert(a + b =~= a);
        assert(sanitized(a) + sanitized(b) =~= sanitized(a));
    } else {
        assert((a + b).drop_last() =~= a + b.drop_last());
        lemma_sanitized_concat(a, b.drop_last());
        assert(sanitized(a + b) =~= sanitized(a) + sanitized(b));
    }
}

/// A base name always holds the `" - "` between artists and title.
pub proof fn lemma_base_name_not_empty(index: nat, ordered: bool, artist: Seq<char>, title: Seq<char>)
    ensures
        base_name(index, ordered, artist, title).len() >= 3,
{
    lemma_sanitized_concat(artist, dash());
    lemma_sanitized_concat(artist + dash(), title);
    let d = dash();
    let d1 = d.drop_last();
    let d2 = d1.drop_last();
    assert(d1 =~= seq![' ', '-']);
    assert(d2 =~= seq![' ']);
    assert(d2.drop_last() =~= Seq::<char>::empty());
    assert(keeps_char(' ') && keeps_char('-'));
    assert(sanitized(Seq::<char>::empty()) =~= Seq::<char>::empty());
    assert(sanitized(d2.drop_last()) =~= Seq::<char>::empty());
    assert(d2.last() == ' ');
    assert(sanitized(d2) =~= seq![' ']);
    assert(sanitized(d1) =~= seq![' ', '-']);
    assert(sanitized(d) =~= d);
}

/// The stem of a track's file name is the track's base name.
pub proof fn lemma_stem_of_file_name(
    index: nat,
    ordered: bool,
    artist: Seq<char>,
    title: Seq<char>,
    encoding: Encoding,
)
    ensures
        stem_of(file_name_of(index, ordered, artist, title, encoding)) == base_name(
            index,
            ordered,
            artist,
            title,
        ),
{
    let base = base_name(index, ordered, artist, title);
    let name = file_name_of(index, ordered, artist, title, encoding);
    lemma_base_name_not_empty(index, ordered, artist, title);
    lemma_last_dot_of_joined(base, extension_chars(encoding));
    assert(name.subrange(0, base.len() as int) =~= base);
}

/// A file written under a track's file name has that track's base name as
/// its stem, so the next run's existence guard finds it and skips the track:
/// downloading twice into the same directory leaves the first files alone.
pub proof fn lemma_written_file_is_found(
    entries: Seq<Seq<char>>,
    index: nat,
    ordered: bool,
    artist: Seq<char>,
    title: Seq<char>,
    encoding: Encoding,
)
    requires
        entries.contains(file_name_of(index, ordered, artist, title, encoding)),
    ensures
        stem_present(entries, base_name(index, ordered, artist, title)),
{
    let name = file_name_of(index, ordered, artist, title, encoding);
    lemma_stem_of_file_name(index, ordered, artist, title, encoding);
    let i = choose|i: int| 0 <= i < entries.len() && entries[i] == name;
    assert(stem_of(entries[i]) == base_name(index, ordered, artist, title));
}

/// What a run decides for one track before any download.
pub struct TrackPlan {
    /// Name of the file the track is written to.
    pub file_name: String,
    /// Its stem, recorded as known to the reconciler whether or not the
    /// track is downloaded.
    pub base_name: String,
    /// Whether a file with that stem is already present.
    pub skip: bool,
}

/// Plans the track at `index` (0-based) of a run, given its artists, its
/// title and the current entries of the destination directory.
pub fn plan_track(
    index: usize,
    ordered: bool,
    artists: &Vec<String>,
    title: &str,
    encoding: Encoding,
    entries: &Vec<String>,
) -> (p: TrackPlan)
    requires
        artists.len() >= 1,
        index < u64::MAX,
    ensures
        p.file_name@ == file_name_of(
            index as nat,
            ordered,
            artist_label_of(names_of(artists@)),
            title@,
            encoding,
        ),
        p.base_name@ == base_name(index as nat, ordered, artist_label_of(names_of(artists@)), title@),
        p.base_name@ == stem_of(p.file_name@),
        p.skip == stem_present(names_of(entries@), p.base_name@),
{
    let artist = artist_label(artists);
    let file_name = track_file_name(index, ordered, artist.as_str(), title, encoding);
    let base = file_stem(file_name.as_str());
    proof {
        lemma_stem_of_file_name(index as nat, ordered, artist@, title@, encoding);
    }
    let skip = file_exists(entries, base.as_str());
    TrackPlan { file_name, base_name: base, skip }
}

/// The guard compares stems only, so a file of another format with the same
/// base name also counts as present.
pub proof fn lemma_other_format_is_found(entries: Seq<Seq<char>>, base: Seq<char>, ext: Seq<char>)
    requires
        base.len() > 0,
        ext.len() > 0,
        forall|k: int| 0 <= k < ext.len() ==> ext[k] != '.',
        entries.contains(base + seq!['.'] + ext),
    ensures
        stem_present(entries, base),
{
    let name = base + seq!['.'] + ext;
    lemma_last_dot_of_joined(base, ext);
    assert(name.subrange(0, base.len() as int) =~= base);
    let i = choose|i: int| 0 <= i < entries.len() && entries[i] == name;
    assert(stem_of(entries[i]) == base);
}

} // verus!
