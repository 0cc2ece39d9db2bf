//! Naming the files that audio downloads are saved under.
use vstd::prelude::*;
use crate::text::{
    chars_of, is_alphanumeric, is_whitespace, push_char, spec_is_alphanumeric, spec_is_whitespace,
    spec_uppercase, uppercase,
};

verus! {

/// What a video page says about the video, once fetched.
pub struct VideoInfo {
    pub title: String,
    pub uploader: Option<String>,
    /// The length in whole seconds, when the page gives one.
    pub duration_secs: Option<u64>,
}

/// Why a download failed.
pub enum DownloadError {
    /// The video is a live stream.
    Live,
    /// A temporary file for the download could not be made, with the reason.
    Temp(String),
    /// The download could not be started, with the reason.
    Runtime(String),
    /// The downloaded file could not be moved into place, with the reason.
    Finalize(String),
    /// The downloader failed, with its reason.
    Downloader(String),
}

impl DownloadError {
    /// The text shown for the error.
    pub fn message(&self) -> (s: String)
        ensures
            (self is Live) ==> s@ == "this video is a live stream and cannot be downloaded"@,
            (self is Temp) ==> s@ == "failed to create a temporary file for the download"@,
            (self is Runtime) ==> s@ == "failed to start the download runtime"@,
            (self is Finalize) ==> s@ == "failed to move the downloaded file into place"@,
            self matches DownloadError::Downloader(why) ==> s@ == why@,
    {
        match self {
            DownloadError::Live => String::from_str("this video is a live stream and cannot be downloaded"),
            DownloadError::Temp(_) => String::from_str("failed to create a temporary file for the download"),
            DownloadError::Runtime(_) => String::from_str("failed to start the download runtime"),
            DownloadError::Finalize(_) => String::from_str("failed to move the downloaded file into place"),
            DownloadError::Downloader(why) => why.clone(),
        }
    }
}

/// A length in seconds as the page gives it, kept only when it is not
/// negative.
pub open spec fn page_duration(secs: Option<i64>) -> Option<u64> {
    match secs {
        Some(d) => if d >= 0 { Some(d as u64) } else { None },
        None => None,
    }
}

/// What a fetched video page allows: a live stream cannot be downloaded;
/// any other video is described by its title, its uploader and its length
/// (a negative length is dropped).
pub fn video_info_from_page(is_live: Option<bool>, title: String, uploader: Option<String>, duration_secs: Option<i64>) -> (r:
    Result<VideoInfo, DownloadError>)
    ensures
        is_live == Some(true) ==> r matches Err(DownloadError::Live),
        is_live != Some(true) ==> (r matches Ok(v) && v.title@ == title@ && v.uploader == uploader
            && v.duration_secs == page_duration(duration_secs)),
{
    if is_live == Some(true) {
        return Err(DownloadError::Live);
    }
    let duration: Option<u64> = match duration_secs {
        Some(d) => if d >= 0 { Some(d as u64) } else { None },
        None => None,
    };
    Ok(VideoInfo { title, uploader, duration_secs: duration })
}

/// Whether a character separates the words of a file-name chunk: white
/// space or a hyphen.
pub open spec fn is_word_separator(c: char) -> bool {
    spec_is_whitespace(c) || c == '-'
}

/// The letters and digits of `s`, in order.
pub open spec fn keep_alphanumeric(s: Seq<char>) -> Seq<char> {
    s.filter(|c: char| spec_is_alphanumeric(c))
}

/// What the character at position `i` contributes to a file-name chunk:
/// nothing for a separator; the letters and digits of its uppercase form
/// when it starts a word; itself when it is a letter or digit inside a word.
pub open spec fn chunk_piece(s: Seq<char>, i: int) -> Seq<char> {
    if is_word_separator(s[i]) {
        seq![]
    } else if i == 0 || is_word_separator(s[i - 1]) {
        keep_alphanumeric(spec_uppercase(s[i]))
    } else {
        keep_alphanumeric(seq![s[i]])
    }
}

/// A field turned into a file-name chunk: each word capitalized, and only
/// letters and digits kept, so "kate bush" gives "KateBush".
pub open spec fn spec_name_chunk(s: Seq<char>) -> Seq<char>
    decreases s.len(),
{
    if s.len() == 0 {
        seq![]
    } else {
        spec_name_chunk(s.drop_last()) + chunk_piece(s, s.len() - 1)
    }
}

/// The file name a download is saved under: the artist chunk, a hyphen,
/// the title chunk, and ".mp3".
pub open spec fn spec_file_name(artist: Seq<char>, title: Seq<char>) -> Seq<char> {
    spec_name_chunk(artist) + "-"@ + spec_name_chunk(title) + ".mp3"@
}

proof fn lemma_chunk_piece_prefix(s: Seq<char>, i: int)
    requires
        0 <= i < s.len(),
    ensures
        chunk_piece(s.take(i + 1), i) == chunk_piece(s, i),
{
    assert(s.take(i + 1)[i] == s[i]);
    if i > 0 {
        assert(s.take(i + 1)[i - 1] == s[i - 1]);
    }
}

/// Appends the letters and digits of `cs` to `out`.
fn push_alphanumeric(out: &mut String, cs: &Vec<char>)
    ensures
        final(out)@ == old(out)@ + keep_alphanumeric(cs@),
{
    let mut k: usize = 0;
    while k < cs.len()
        invariant
            k <= cs@.len(),
            out@ == old(out)@ + keep_alphanumeric(cs@.take(k as int)),
        decreases cs@.len() - k,
    {
        proof {
            reveal(Seq::filter);
            assert(cs@.take(k as int + 1).drop_last() =~= cs@.take(k as int));
        }
        if is_alphanumeric(cs[k]) {
            push_char(out, cs[k]);
        }
        k = k + 1;
    }
    assert(cs@.take(cs@.len() as int) =~= cs@);
}

/// Turns a field into a file-name chunk: words are split at white space and
/// hyphens, each word gets its first character uppercased, and only letters
/// and digits are kept.
pub fn generate_name_chunk(field: &str) -> (s: String)
    ensures
        s@ == spec_name_chunk(field@),
{
    let cs = chars_of(field);
    let mut out = String::new();
    let mut i: usize = 0;
    proof {
        assert(cs@.take(0) =~= seq![]);
    }
    while i < cs.len()
        invariant
            cs@ == field@,
            i <= cs@.len(),
            out@ == spec_name_chunk(cs@.take(i as int)),
        decreases cs@.len() - i,
    {
        let c = cs[i];
        let ghost before = out@;
        proof {
            let p = cs@.take(i as int + 1);
            assert(p.drop_last() =~= cs@.take(i as int));
            lemma_chunk_piece_prefix(cs@, i as int);
            assert(spec_name_chunk(p) == spec_name_chunk(cs@.take(i as int)) + chunk_piece(cs@, i as int));
        }
        let sep = is_whitespace(c) || c == '-';
        if !sep {
            let starts = i == 0 || is_whitespace(cs[i - 1]) || cs[i - 1] == '-';
            if starts {
                let up = uppercase(c);
                push_alphanumeric(&mut out, &up);
                assert(chunk_piece(cs@, i as int) == keep_alphanumeric(up@));
            } else {
                let single = vec![c];
                push_alphanumeric(&mut out, &single);
                assert(single@ =~= seq![c]);
                assert(chunk_piece(cs@, i as int) == keep_alphanumeric(single@));
            }
        } else {
            proof {
                assert(chunk_piece(cs@, i as int) =~= seq![]);
                assert(before + chunk_piece(cs@, i as int) =~= before);
            }
        }
        assert(out@ == before + chunk_piece(cs@, i as int));
        i = i + 1;
    }
    assert(cs@.take(cs@.len() as int) =~= cs@);
    out
}

/// One word made into part of a file name: its first character
/// uppercased, then only its letters and digits kept.
pub open spec fn spec_capitalize_and_strip(w: Seq<char>) -> Seq<char> {
    if w.len() == 0 {
        seq![]
    } else {
        keep_alphanumeric(spec_uppercase(w[0]) + w.drop_first())
    }
}

/// Uppercases the first character of a word and keeps only its letters and
/// digits.
pub fn capitalize_and_strip(word: &str) -> (s: String)
    ensures
        s@ == spec_capitalize_and_strip(word@),
{
    let cs = chars_of(word);
    if cs.len() == 0 {
        return String::new();
    }
    let mut whole = uppercase(cs[0]);
    let ghost up = whole@;
    let mut i: usize = 1;
    while i < cs.len()
        invariant
            cs@ == word@,
            cs@.len() > 0,
            1 <= i <= cs@.len(),
            whole@ == up + cs@.subrange(1, i as int),
        decreases cs@.len() - i,
    {
        whole.push(cs[i]);
        i = i + 1;
        proof {
            assert(whole@ =~= up + cs@.subrange(1, i as int));
        }
    }
    let mut out = String::new();
    push_alphanumeric(&mut out, &whole);
    assert(cs@.subrange(1, cs@.len() as int) =~= cs@.drop_first());
    assert(out@ =~= keep_alphanumeric(whole@));
    out
}

/// The file name for a download of `title` by `artist`, such as
/// "KateBush-RunningUpThatHill.mp3".
pub fn generate_file_name(artist: &str, title: &str) -> (s: String)
    ensures
        s@ == spec_file_name(artist@, title@),
{
    let mut s = generate_name_chunk(artist);
    s.append("-");
    let t = generate_name_chunk(title);
    s.append(t.as_str());
    s.append(".mp3");
    s
}

proof fn lemma_keep_alphanumeric(s: Seq<char>)
    ensures
        forall|k: int| 0 <= k < keep_alphanumeric(s).len() ==> spec_is_alphanumeric(#[trigger] keep_alphanumeric(s)[k]),
{
    assert forall|k: int| 0 <= k < keep_alphanumeric(s).len() implies spec_is_alphanumeric(#[trigger] keep_alphanumeric(s)[k]) by {
        s.lemma_filter_pred(|c: char| spec_is_alphanumeric(c), k);
    }
}

/// Law: a file-name chunk holds only letters and digits, so a generated
/// file name has no path separator, space or other punctuation outside its
/// fixed hyphen and extension.
pub proof fn law_name_chunk_is_alphanumeric(s: Seq<char>)
    ensures
        forall|k: int| 0 <= k < spec_name_chunk(s).len() ==> spec_is_alphanumeric(#[trigger] spec_name_chunk(s)[k]),
    decreases s.len(),
{
    if s.len() > 0 {
        law_name_chunk_is_alphanumeric(s.drop_last());
        let i = s.len() - 1;
        let prev = spec_name_chunk(s.drop_last());
        let piece = chunk_piece(s, i);
        if is_word_separator(s[i]) {
        } else if i == 0 || is_word_separator(s[i - 1]) {
            lemma_keep_alphanumeric(spec_uppercase(s[i]));
        } else {
            lemma_keep_alphanumeric(seq![s[i]]);
        }
        assert forall|k: int| 0 <= k < spec_name_chunk(s).len() implies spec_is_alphanumeric(#[trigger] spec_name_chunk(s)[k]) by {
            if k < prev.len() {
                assert(spec_name_chunk(s)[k] == prev[k]);
            } else {
                assert(spec_name_chunk(s)[k] == piece[k - prev.len()]);
            }
        }
    }
}

} // verus!
