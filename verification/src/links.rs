//! Link detection for incoming messages: recognizes YouTube videos,
//! shorts, music and playlist links, Telegram channel links, and any
//! other URL as an unsupported catch-all.
//!
//! The link grammar is scanned directly over the characters of the text.
//! YouTube links are collected first; Telegram links are considered only
//! in messages with no YouTube link; a generic URL is reported, alone,
//! only when nothing else matched.
use vstd::prelude::*;

use crate::util::contains_sub;
use crate::util::find_sub;
use crate::util::is_match_at;
use crate::util::parse_u64;
use crate::util::str_eq;

verus! {

/// A link recognized in a message.
#[derive(Debug)]
pub enum DetectedLink {
    /// Single YouTube video.
    YoutubeVideo { url: String, video_id: String },
    /// YouTube playlist.
    YoutubePlaylist { url: String, playlist_id: String },
    /// YouTube short.
    YoutubeShort { url: String, video_id: String },
    /// YouTube Music link.
    YoutubeMusic { url: String, video_id: String },
    /// Telegram channel or group message link: public links carry the
    /// channel's username, private ones the full numeric chat id.
    TelegramFile { url: String, username: Option<String>, channel_id: Option<i64>, message_id: i32 },
    /// Any other URL; recognized but not downloadable.
    Unsupported { url: String },
}

/// Characters allowed in YouTube video and playlist identifiers.
pub open spec fn is_id_char(c: char) -> bool {
    (97 <= c as int <= 122) || (65 <= c as int <= 90) || (48 <= c as int <= 57) || c == '-' || c
        == '_'
}

/// Word characters: letters, digits and underscore.
pub open spec fn is_word_char(c: char) -> bool {
    (97 <= c as int <= 122) || (65 <= c as int <= 90) || (48 <= c as int <= 57) || c == '_'
}

/// Characters a generic URL may contain: anything but whitespace and the
/// bracketing or quoting punctuation that ends a URL in prose.
pub open spec fn is_url_char(c: char) -> bool {
    &&& c != ' '
    &&& c != '\t'
    &&& c != '\n'
    &&& c != '\r'
    &&& c != '<'
    &&& c != '>'
    &&& c != '['
    &&& c != ']'
    &&& c != '('
    &&& c != ')'
    &&& c != '{'
    &&& c != '}'
    &&& c != ','
    &&& c != '"'
    &&& c != '\''
}

impl DetectedLink {
    /// The matched URL text, whatever the kind.
    pub open spec fn spec_url(&self) -> Seq<char> {
        match self {
            DetectedLink::YoutubeVideo { url, .. } => url@,
            DetectedLink::YoutubePlaylist { url, .. } => url@,
            DetectedLink::YoutubeShort { url, .. } => url@,
            DetectedLink::YoutubeMusic { url, .. } => url@,
            DetectedLink::TelegramFile { url, .. } => url@,
            DetectedLink::Unsupported { url } => url@,
        }
    }

    /// Whether this is one of the YouTube link kinds.
    pub open spec fn spec_is_youtube(&self) -> bool {
        self matches DetectedLink::YoutubeVideo { .. } || self
            matches DetectedLink::YoutubePlaylist { .. } || self
            matches DetectedLink::YoutubeShort { .. } || self
            matches DetectedLink::YoutubeMusic { .. }
    }

    /// The matched URL text, whatever the kind.
    pub fn url(&self) -> (r: &str)
        ensures
            r@ == self.spec_url(),
    {
        match self {
            DetectedLink::YoutubeVideo { url, .. } => url.as_str(),
            DetectedLink::YoutubePlaylist { url, .. } => url.as_str(),
            DetectedLink::YoutubeShort { url, .. } => url.as_str(),
            DetectedLink::YoutubeMusic { url, .. } => url.as_str(),
            DetectedLink::TelegramFile { url, .. } => url.as_str(),
            DetectedLink::Unsupported { url } => url.as_str(),
        }
    }

    /// Whether this is a playlist link.
    pub fn is_playlist(&self) -> (r: bool)
        ensures
            r == self matches DetectedLink::YoutubePlaylist { .. },
    {
        matches!(self, DetectedLink::YoutubePlaylist { .. })
    }

    /// Whether this link kind can be downloaded.
    pub fn is_supported(&self) -> (r: bool)
        ensures
            r == !(self matches DetectedLink::Unsupported { .. }),
    {
        !matches!(self, DetectedLink::Unsupported { .. })
    }

    /// Whether this is a Telegram link.
    pub fn is_telegram(&self) -> (r: bool)
        ensures
            r == self matches DetectedLink::TelegramFile { .. },
    {
        matches!(self, DetectedLink::TelegramFile { .. })
    }

    /// The worker action name for this link kind.
    pub fn ipc_action(&self) -> (r: &'static str)
        ensures
            self matches DetectedLink::YoutubePlaylist { .. } ==> r@ == "playlist"@,
            (self matches DetectedLink::YoutubeVideo { .. } || self
                matches DetectedLink::YoutubeShort { .. } || self
                matches DetectedLink::YoutubeMusic { .. }) ==> r@ == "youtube_dl"@,
            self matches DetectedLink::TelegramFile { .. } ==> r@ == "telegram_forward"@,
            self matches DetectedLink::Unsupported { .. } ==> r@ == "unsupported"@,
    {
        match self {
            DetectedLink::YoutubePlaylist { .. } => "playlist",
            DetectedLink::YoutubeVideo { .. }
            | DetectedLink::YoutubeShort { .. }
            | DetectedLink::YoutubeMusic { .. } => "youtube_dl",
            DetectedLink::TelegramFile { .. } => "telegram_forward",
            DetectedLink::Unsupported { .. } => "unsupported",
        }
    }
}

/// Structural soundness of a detected link: identifiers have the right
/// alphabet and length, and Telegram links carry a positive message id
/// and exactly one of a username or a private chat id.
pub open spec fn link_wf(l: DetectedLink) -> bool {
    match l {
        DetectedLink::YoutubeVideo { video_id, .. } => video_id@.len() == 11 && (forall|i: int|
            0 <= i < video_id@.len() ==> is_id_char(#[trigger] video_id@[i])),
        DetectedLink::YoutubeShort { video_id, .. } => video_id@.len() == 11 && (forall|i: int|
            0 <= i < video_id@.len() ==> is_id_char(#[trigger] video_id@[i])),
        DetectedLink::YoutubeMusic { video_id, .. } => video_id@.len() == 11 && (forall|i: int|
            0 <= i < video_id@.len() ==> is_id_char(#[trigger] video_id@[i])),
        DetectedLink::YoutubePlaylist { playlist_id, .. } => playlist_id@.len() > 0 && (forall|
            i: int,
        |
            0 <= i < playlist_id@.len() ==> is_id_char(#[trigger] playlist_id@[i])),
        DetectedLink::TelegramFile { username, channel_id, message_id, .. } => message_id > 0 && (
        username is Some <==> channel_id is None) && (channel_id matches Some(c) ==> c < 0),
        DetectedLink::Unsupported { url } => url@.len() > 0,
    }
}

/// The matched URL of the link occurs in the scanned text.
pub open spec fn link_in_text(l: DetectedLink, text: Seq<char>) -> bool {
    exists|j: int| is_match_at(text, l.spec_url(), j)
}

/// End of the maximal run of identifier characters starting at `from`.
fn id_run_end(s: &str, from: usize) -> (e: usize)
    requires
        from <= s@.len(),
    ensures
        from <= e <= s@.len(),
        forall|t: int| from <= t < e ==> is_id_char(#[trigger] s@[t]),
        e < s@.len() ==> !is_id_char(s@[e as int]),
{
    let n = s.unicode_len();
    let mut i: usize = from;
    while i < n
        invariant
            n == s@.len(),
            from <= i <= n,
            forall|t: int| from <= t < i ==> is_id_char(#[trigger] s@[t]),
        decreases n - i,
    {
        let cv = s.get_char(i) as u32;
        let ok = (97 <= cv && cv <= 122) || (65 <= cv && cv <= 90) || (48 <= cv && cv <= 57) || cv
            == 45 || cv == 95;
        if !ok {
            proof {
                assert(!is_id_char(s@[i as int]));
            }
            return i;
        }
        proof {
            assert(is_id_char(s@[i as int]));
        }
        i = i + 1;
    }
    n
}

/// End of the maximal run of word characters starting at `from`.
fn word_run_end(s: &str, from: usize) -> (e: usize)
    requires
        from <= s@.len(),
    ensures
        from <= e <= s@.len(),
        forall|t: int| from <= t < e ==> is_word_char(#[trigger] s@[t]),
        e < s@.len() ==> !is_word_char(s@[e as int]),
{
    let n = s.unicode_len();
    let mut i: usize = from;
    while i < n
        invariant
            n == s@.len(),
            from <= i <= n,
            forall|t: int| from <= t < i ==> is_word_char(#[trigger] s@[t]),
        decreases n - i,
    {
        let cv = s.get_char(i) as u32;
        let ok = (97 <= cv && cv <= 122) || (65 <= cv && cv <= 90) || (48 <= cv && cv <= 57) || cv
            == 95;
        if !ok {
            proof {
                assert(!is_word_char(s@[i as int]));
            }
            return i;
        }
        proof {
            assert(is_word_char(s@[i as int]));
        }
        i = i + 1;
    }
    n
}

/// End of the maximal run of decimal digits starting at `from`.
fn digit_run_end(s: &str, from: usize) -> (e: usize)
    requires
        from <= s@.len(),
    ensures
        from <= e <= s@.len(),
        forall|t: int| from <= t < e ==> crate::util::is_digit(#[trigger] s@[t]),
        e < s@.len() ==> !crate::util::is_digit(s@[e as int]),
{
    let n = s.unicode_len();
    let mut i: usize = from;
    while i < n
        invariant
            n == s@.len(),
            from <= i <= n,
            forall|t: int| from <= t < i ==> crate::util::is_digit(#[trigger] s@[t]),
        decreases n - i,
    {
        let cv = s.get_char(i) as u32;
        if !(48 <= cv && cv <= 57) {
            proof {
                assert(!crate::util::is_digit(s@[i as int]));
            }
            return i;
        }
        proof {
            assert(crate::util::is_digit(s@[i as int]));
        }
        i = i + 1;
    }
    n
}

/// End of the maximal run of URL characters starting at `from`.
fn url_run_end(s: &str, from: usize) -> (e: usize)
    requires
        from <= s@.len(),
    ensures
        from <= e <= s@.len(),
        forall|t: int| from <= t < e ==> is_url_char(#[trigger] s@[t]),
        e < s@.len() ==> !is_url_char(s@[e as int]),
{
    let n = s.unicode_len();
    let mut i: usize = from;
    while i < n
        invariant
            n == s@.len(),
            from <= i <= n,
            forall|t: int| from <= t < i ==> is_url_char(#[trigger] s@[t]),
        decreases n - i,
    {
        let cv = s.get_char(i) as u32;
        let bad = cv == 32 || cv == 9 || cv == 10 || cv == 13 || cv == 60 || cv == 62 || cv == 91
            || cv == 93 || cv == 40 || cv == 41 || cv == 123 || cv == 125 || cv == 44 || cv == 34
            || cv == 39;
        if bad {
            proof {
                assert(!is_url_char(s@[i as int]));
            }
            return i;
        }
        proof {
            assert(is_url_char(s@[i as int]));
        }
        i = i + 1;
    }
    n
}

/// A generic URL starts at position `j` of `s`: a protocol followed by at
/// least one URL character.
pub open spec fn generic_url_at(s: Seq<char>, j: int) -> bool {
    ||| (is_match_at(s, "https://"@, j) && j + 8 < s.len() && is_url_char(s[j + 8]))
    ||| (is_match_at(s, "http://"@, j) && j + 7 < s.len() && is_url_char(s[j + 7]))
}

/// Eleven identifier characters start at position `k` of `s`.
pub open spec fn eleven_ids_at(s: Seq<char>, k: int) -> bool {
    k + 11 <= s.len() && forall|t: int| k <= t < k + 11 ==> is_id_char(#[trigger] s[t])
}

/// A YouTube link matches at position `j` of `s`: a playlist, shorts,
/// music or video anchor with its identifier behind it. The optional
/// prefixes in front of an anchor widen a match without deciding one.
pub open spec fn youtube_match_at(s: Seq<char>, j: int) -> bool {
    ||| (is_match_at(s, "youtube.com/playlist?list="@, j) && j + 26 < s.len() && is_id_char(
        s[j + 26],
    ))
    ||| (is_match_at(s, "youtube.com/shorts/"@, j) && eleven_ids_at(s, j + 19))
    ||| (is_match_at(s, "music.youtube.com/watch?v="@, j) && eleven_ids_at(s, j + 26))
    ||| (is_match_at(s, "youtube.com/watch?v="@, j) && eleven_ids_at(s, j + 20))
    ||| (is_match_at(s, "youtu.be/"@, j) && eleven_ids_at(s, j + 9))
}

/// Start of the match around an anchor at `p`, taking in an optional
/// `www.` and an optional protocol in front of it.
fn www_proto_start(text: &str, p: usize) -> (s: usize)
    requires
        p <= text@.len(),
    ensures
        s <= p,
{
    proof {
        reveal_strlit("www.");
        reveal_strlit("https://");
        reveal_strlit("http://");
    }
    let s1 = if p >= 4 && crate::util::match_at(text, "www.", p - 4) {
        p - 4
    } else {
        p
    };
    if s1 >= 8 && crate::util::match_at(text, "https://", s1 - 8) {
        s1 - 8
    } else if s1 >= 7 && crate::util::match_at(text, "http://", s1 - 7) {
        s1 - 7
    } else {
        s1
    }
}

/// Start of the mandatory protocol in front of an anchor at `p`, if one
/// is there.
fn proto_start(text: &str, p: usize) -> (s: Option<usize>)
    requires
        p <= text@.len(),
    ensures
        s matches Some(i) ==> i <= p,
{
    proof {
        reveal_strlit("https://");
        reveal_strlit("http://");
    }
    if p >= 8 && crate::util::match_at(text, "https://", p - 8) {
        Some(p - 8)
    } else if p >= 7 && crate::util::match_at(text, "http://", p - 7) {
        Some(p - 7)
    } else {
        None
    }
}

/// Every link so far is well-formed, taken from the text, and of a
/// YouTube kind.
spec fn all_youtube(links: Seq<DetectedLink>, text: Seq<char>) -> bool {
    forall|k: int|
        0 <= k < links.len() ==> link_wf(#[trigger] links[k]) && link_in_text(links[k], text)
            && links[k].spec_is_youtube()
}

/// Every link so far is well-formed, taken from the text, and a Telegram
/// link.
spec fn all_telegram(links: Seq<DetectedLink>, text: Seq<char>) -> bool {
    forall|k: int|
        0 <= k < links.len() ==> link_wf(#[trigger] links[k]) && link_in_text(links[k], text)
            && links[k] matches DetectedLink::TelegramFile { .. }
}

/// Collect playlist links: an optionally prefixed
/// `youtube.com/playlist?list=` followed by at least one id character.
fn scan_playlists(text: &str, links: &mut Vec<DetectedLink>)
    requires
        all_youtube(old(links)@, text@),
    ensures
        all_youtube(final(links)@, text@),
        final(links)@.len() >= old(links)@.len(),
        final(links)@.len() == 0 ==> forall|j: int|
            !(is_match_at(text@, "youtube.com/playlist?list="@, j) && j + 26 < text@.len()
                && is_id_char(text@[j + 26])),
{
    let n = text.unicode_len();
    proof {
        reveal_strlit("youtube.com/playlist?list=");
    }
    let mut pos: usize = 0;
    while pos <= n
        invariant
            n == text@.len(),
            "youtube.com/playlist?list="@.len() == 26,
            0 <= pos,
            all_youtube(links@, text@),
            links@.len() >= old(links)@.len(),
            links@.len() == 0 ==> forall|j: int|
                0 <= j < pos ==> !(is_match_at(text@, "youtube.com/playlist?list="@, j) && j + 26
                    < text@.len() && is_id_char(text@[j + 26])),
        ensures
            all_youtube(links@, text@),
            links@.len() >= old(links)@.len(),
            links@.len() == 0 ==> forall|j: int|
                !(is_match_at(text@, "youtube.com/playlist?list="@, j) && j + 26 < text@.len()
                    && is_id_char(text@[j + 26])),
        decreases n + 1 - pos,
    {
        match find_sub(text, "youtube.com/playlist?list=", pos) {
            Some(p) => {
                let idstart = p + 26;
                let idend = id_run_end(text, idstart);
                if idend > idstart {
                    let start = www_proto_start(text, p);
                    let url = text.substring_char(start, idend).to_owned();
                    let pid = text.substring_char(idstart, idend).to_owned();
                    let ghost uv = url@;
                    let ghost st = start as int;
                    proof {
                        assert forall|i: int| 0 <= i < pid@.len() implies is_id_char(
                            #[trigger] pid@[i],
                        ) by {
                            assert(pid@[i] == text@[idstart + i]);
                        }
                        assert(is_match_at(text@, uv, st));
                    }
                    let ghost before = links@;
                    links.push(DetectedLink::YoutubePlaylist { url, playlist_id: pid });
                    proof {
                        let last = links@.len() - 1;
                        assert(links@[last].spec_url() == uv);
                        assert(is_match_at(text@, links@[last].spec_url(), st));
                        assert(link_wf(links@[last]));
                        assert forall|k2: int| 0 <= k2 < links@.len() implies link_wf(
                            #[trigger] links@[k2],
                        ) && link_in_text(links@[k2], text@) && links@[k2].spec_is_youtube() by {
                            if k2 < last {
                                assert(links@[k2] == before[k2]);
                            }
                        }
                    }
                    pos = idend;
                } else {
                    proof {
                        assert forall|j: int|
                            links@.len() == 0 && 0 <= j < p + 1 implies !(is_match_at(
                            text@,
                            "youtube.com/playlist?list="@,
                            j,
                        ) && j + 26 < text@.len() && is_id_char(text@[j + 26])) by {
                            if j == p {
                                assert(idend == idstart);
                                if p + 26 < text@.len() {
                                    assert(!is_id_char(text@[p + 26]));
                                }
                            }
                        }
                    }
                    pos = p + 1;
                }
            }
            None => {
                proof {
                    assert forall|j: int|
                        links@.len() == 0 implies !(is_match_at(
                        text@,
                        "youtube.com/playlist?list="@,
                        j,
                    ) && j + 26 < text@.len() && is_id_char(text@[j + 26])) by {
                        if pos <= j {
                            assert(!is_match_at(text@, "youtube.com/playlist?list="@, j));
                        }
                    }
                }
                break;
            }
        }
    }
}

/// Collect eleven-character YouTube ids behind a fixed anchor: used for
/// shorts and for music links. `www_prefix` says whether an optional
/// `www.` may stand before the anchor.
fn scan_eleven(
    text: &str,
    anchor: &str,
    www_prefix: bool,
    links: &mut Vec<DetectedLink>,
    kind_short: bool,
)
    requires
        anchor@.len() > 0,
        all_youtube(old(links)@, text@),
    ensures
        all_youtube(final(links)@, text@),
        final(links)@.len() >= old(links)@.len(),
        final(links)@.len() == 0 ==> forall|j: int|
            !(is_match_at(text@, anchor@, j) && eleven_ids_at(text@, j + anchor@.len())),
{
    let n = text.unicode_len();
    let alen = anchor.unicode_len();
    let mut pos: usize = 0;
    while pos <= n
        invariant
            n == text@.len(),
            alen == anchor@.len(),
            0 < alen,
            0 <= pos,
            all_youtube(links@, text@),
            links@.len() >= old(links)@.len(),
            links@.len() == 0 ==> forall|j: int|
                0 <= j < pos ==> !(is_match_at(text@, anchor@, j) && eleven_ids_at(
                    text@,
                    j + anchor@.len(),
                )),
        ensures
            all_youtube(links@, text@),
            links@.len() >= old(links)@.len(),
            links@.len() == 0 ==> forall|j: int|
                !(is_match_at(text@, anchor@, j) && eleven_ids_at(text@, j + anchor@.len())),
        decreases n + 1 - pos,
    {
        match find_sub(text, anchor, pos) {
            Some(p) => {
                let idstart = p + alen;
                if idstart > n {
                    proof {
                        assert forall|j: int|
                            links@.len() == 0 && 0 <= j < p + 1 implies !(is_match_at(
                            text@,
                            anchor@,
                            j,
                        ) && eleven_ids_at(text@, j + anchor@.len())) by {}
                    }
                    pos = p + 1;
                    continue;
                }
                let idend = id_run_end(text, idstart);
                if idend - idstart >= 11 {
                    let start = if www_prefix {
                        www_proto_start(text, p)
                    } else {
                        match proto_start(text, p) {
                            Some(s) => s,
                            None => p,
                        }
                    };
                    let url = text.substring_char(start, idstart + 11).to_owned();
                    let vid = text.substring_char(idstart, idstart + 11).to_owned();
                    let ghost uv = url@;
                    let ghost st = start as int;
                    proof {
                        assert forall|i: int| 0 <= i < vid@.len() implies is_id_char(
                            #[trigger] vid@[i],
                        ) by {
                            assert(vid@[i] == text@[idstart + i]);
                        }
                        assert(is_match_at(text@, uv, st));
                    }
                    let ghost before = links@;
                    if kind_short {
                        links.push(DetectedLink::YoutubeShort { url, video_id: vid });
                    } else {
                        links.push(DetectedLink::YoutubeMusic { url, video_id: vid });
                    }
                    proof {
                        let last = links@.len() - 1;
                        assert(links@[last].spec_url() == uv);
                        assert(is_match_at(text@, links@[last].spec_url(), st));
                        assert(link_wf(links@[last]));
                        assert forall|k2: int| 0 <= k2 < links@.len() implies link_wf(
                            #[trigger] links@[k2],
                        ) && link_in_text(links@[k2], text@) && links@[k2].spec_is_youtube() by {
                            if k2 < last {
                                assert(links@[k2] == before[k2]);
                            }
                        }
                    }
                    pos = idstart + 11;
                } else {
                    proof {
                        assert forall|j: int|
                            links@.len() == 0 && 0 <= j < p + 1 implies !(is_match_at(
                            text@,
                            anchor@,
                            j,
                        ) && eleven_ids_at(text@, j + anchor@.len())) by {
                            if j == p && idstart + 11 <= text@.len() {
                                assert(idend < idstart + 11);
                                assert(idend < text@.len());
                                assert(!is_id_char(text@[idend as int]));
                            }
                        }
                    }
                    pos = p + 1;
                }
            }
            None => {
                proof {
                    assert forall|j: int|
                        links@.len() == 0 implies !(is_match_at(text@, anchor@, j)
                        && eleven_ids_at(text@, j + anchor@.len())) by {
                        if pos <= j {
                            assert(!is_match_at(text@, anchor@, j));
                        }
                    }
                }
                break;
            }
        }
    }
}

/// Collect plain video links behind `youtube.com/watch?v=` or
/// `youtu.be/`, skipping ids already captured by an earlier link.
fn scan_videos(text: &str, links: &mut Vec<DetectedLink>)
    requires
        all_youtube(old(links)@, text@),
    ensures
        all_youtube(final(links)@, text@),
        final(links)@.len() >= old(links)@.len(),
        final(links)@.len() == 0 ==> forall|j: int|
            !(is_match_at(text@, "youtube.com/watch?v="@, j) && eleven_ids_at(text@, j + 20)) && !(
            is_match_at(text@, "youtu.be/"@, j) && eleven_ids_at(text@, j + 9)),
{
    let n = text.unicode_len();
    proof {
        reveal_strlit("youtube.com/watch?v=");
        reveal_strlit("youtu.be/");
    }
    let mut pos: usize = 0;
    while pos <= n
        invariant
            n == text@.len(),
            "youtube.com/watch?v="@.len() == 20,
            "youtu.be/"@.len() == 9,
            "youtube.com/watch?v="@[5] == 'b',
            "youtu.be/"@[5] == '.',
            0 <= pos,
            all_youtube(links@, text@),
            links@.len() >= old(links)@.len(),
            links@.len() == 0 ==> forall|j: int|
                0 <= j < pos ==> !(is_match_at(text@, "youtube.com/watch?v="@, j)
                    && eleven_ids_at(text@, j + 20)) && !(is_match_at(text@, "youtu.be/"@, j)
                    && eleven_ids_at(text@, j + 9)),
        ensures
            all_youtube(links@, text@),
            links@.len() >= old(links)@.len(),
            links@.len() == 0 ==> forall|j: int|
                !(is_match_at(text@, "youtube.com/watch?v="@, j) && eleven_ids_at(text@, j + 20))
                    && !(is_match_at(text@, "youtu.be/"@, j) && eleven_ids_at(text@, j + 9)),
        decreases n + 1 - pos,
    {
        let pa = find_sub(text, "youtube.com/watch?v=", pos);
        let pb = find_sub(text, "youtu.be/", pos);
        let chosen: Option<(usize, usize)> = match (pa, pb) {
            (Some(a), Some(b)) => {
                if a <= b {
                    Some((a, 20))
                } else {
                    Some((b, 9))
                }
            }
            (Some(a), None) => Some((a, 20)),
            (None, Some(b)) => Some((b, 9)),
            (None, None) => None,
        };
        match chosen {
            Some((p, alen)) => {
                proof {
                    assert forall|j: int|
                        pos <= j < p implies !is_match_at(text@, "youtube.com/watch?v="@, j)
                        && !is_match_at(text@, "youtu.be/"@, j) by {}
                    if is_match_at(text@, "youtube.com/watch?v="@, p as int) && is_match_at(
                        text@,
                        "youtu.be/"@,
                        p as int,
                    ) {
                        assert(text@.subrange(p as int, p as int + 20)[5] == text@[p as int + 5]);
                        assert(text@.subrange(p as int, p as int + 9)[5] == text@[p as int + 5]);
                    }
                }
                let idstart = p + alen;
                if idstart > n {
                    proof {
                        assert forall|j: int|
                            links@.len() == 0 && 0 <= j < p + 1 implies !(is_match_at(
                            text@,
                            "youtube.com/watch?v="@,
                            j,
                        ) && eleven_ids_at(text@, j + 20)) && !(is_match_at(
                            text@,
                            "youtu.be/"@,
                            j,
                        ) && eleven_ids_at(text@, j + 9)) by {}
                    }
                    pos = p + 1;
                    continue;
                }
                let idend = id_run_end(text, idstart);
                if idend - idstart >= 11 {
                    let vid = text.substring_char(idstart, idstart + 11).to_owned();
                    let mut dup = false;
                    let mut k: usize = 0;
                    while k < links.len()
                        invariant
                            0 <= k <= links@.len(),
                            all_youtube(links@, text@),
                            n == text@.len(),
                            dup ==> links@.len() > 0,
                        decreases links@.len() - k,
                    {
                        if contains_sub(links[k].url(), vid.as_str()) {
                            dup = true;
                        }
                        k = k + 1;
                    }
                    if !dup {
                        let start = www_proto_start(text, p);
                        let url = text.substring_char(start, idstart + 11).to_owned();
                        let ghost uv = url@;
                        let ghost st = start as int;
                        proof {
                            assert forall|i: int| 0 <= i < vid@.len() implies is_id_char(
                                #[trigger] vid@[i],
                            ) by {
                                assert(vid@[i] == text@[idstart + i]);
                            }
                            assert(is_match_at(text@, uv, st));
                        }
                        let ghost before = links@;
                        links.push(DetectedLink::YoutubeVideo { url, video_id: vid });
                        proof {
                            let last = links@.len() - 1;
                            assert(links@[last].spec_url() == uv);
                            assert(is_match_at(text@, links@[last].spec_url(), st));
                            assert(link_wf(links@[last]));
                            assert forall|k2: int| 0 <= k2 < links@.len() implies link_wf(
                                #[trigger] links@[k2],
                            ) && link_in_text(links@[k2], text@)
                                && links@[k2].spec_is_youtube() by {
                                if k2 < last {
                                    assert(links@[k2] == before[k2]);
                                }
                            }
                        }
                    }
                    pos = idstart + 11;
                } else {
                    proof {
                        assert forall|j: int|
                            links@.len() == 0 && 0 <= j < p + 1 implies !(is_match_at(
                            text@,
                            "youtube.com/watch?v="@,
                            j,
                        ) && eleven_ids_at(text@, j + 20)) && !(is_match_at(
                            text@,
                            "youtu.be/"@,
                            j,
                        ) && eleven_ids_at(text@, j + 9)) by {
                            if j == p && idstart + 11 <= text@.len() {
                                assert(idend < idstart + 11);
                                assert(idend < text@.len());
                                assert(!is_id_char(text@[idend as int]));
                            }
                        }
                    }
                    pos = p + 1;
                }
            }
            None => {
                proof {
                    assert forall|j: int|
                        links@.len() == 0 implies !(is_match_at(
                        text@,
                        "youtube.com/watch?v="@,
                        j,
                    ) && eleven_ids_at(text@, j + 20)) && !(is_match_at(text@, "youtu.be/"@, j)
                        && eleven_ids_at(text@, j + 9)) by {
                        if pos <= j {
                            assert(!is_match_at(text@, "youtube.com/watch?v="@, j));
                            assert(!is_match_at(text@, "youtu.be/"@, j));
                        }
                    }
                }
                break;
            }
        }
    }
}

/// Collect private Telegram links `https?://t.me/c/<chat>/<message>`.
fn scan_telegram_private(text: &str, links: &mut Vec<DetectedLink>)
    requires
        all_telegram(old(links)@, text@),
    ensures
        all_telegram(final(links)@, text@),
{
    let n = text.unicode_len();
    let mut pos: usize = 0;
    while pos <= n
        invariant
            n == text@.len(),
            0 <= pos,
            all_telegram(links@, text@),
        decreases n + 1 - pos,
    {
        match find_sub(text, "t.me/c/", pos) {
            Some(p) => {
                proof {
                    reveal_strlit("t.me/c/");
                }
                let start = match proto_start(text, p) {
                    Some(s) => s,
                    None => {
                        pos = p + 1;
                        continue;
                    }
                };
                let d1start = p + 7;
                let d1end = digit_run_end(text, d1start);
                if d1end == d1start {
                    pos = p + 1;
                    continue;
                }
                if d1end >= n || text.get_char(d1end) as u32 != 47 {
                    pos = p + 1;
                    continue;
                }
                let d2start = d1end + 1;
                let d2end = digit_run_end(text, d2start);
                if d2end == d2start {
                    pos = p + 1;
                    continue;
                }
                // The chat id the original would parse: -100 prepended to
                // the raw digits, negated, if it fits a signed value.
                let mut magnitude = "100".to_owned();
                let raw = text.substring_char(d1start, d1end);
                magnitude.append(raw);
                let chat_ok: Option<i64> = match parse_u64(magnitude.as_str()) {
                    Some(v) => {
                        if 100 <= v && v <= 9223372036854775807u64 {
                            Some(0i64 - (v as i64))
                        } else {
                            None
                        }
                    }
                    None => None,
                };
                let msg_str = text.substring_char(d2start, d2end);
                let msg_ok: Option<i32> = match parse_u64(msg_str) {
                    Some(v) => {
                        if 0 < v && v <= 2147483647u64 {
                            Some(v as i32)
                        } else {
                            None
                        }
                    }
                    None => None,
                };
                match (chat_ok, msg_ok) {
                    (Some(chat_id), Some(message_id)) => {
                        let url = text.substring_char(start, d2end).to_owned();
                        let ghost uv = url@;
                        let ghost st = start as int;
                        proof {
                            assert(is_match_at(text@, uv, st));
                        }
                        let ghost before = links@;
                        links.push(
                            DetectedLink::TelegramFile {
                                url,
                                username: None,
                                channel_id: Some(chat_id),
                                message_id,
                            },
                        );
                        proof {
                            let last = links@.len() - 1;
                            assert(links@[last].spec_url() == uv);
                            assert(is_match_at(text@, links@[last].spec_url(), st));
                            assert(link_wf(links@[last]));
                            assert forall|k2: int| 0 <= k2 < links@.len() implies link_wf(
                                #[trigger] links@[k2],
                            ) && link_in_text(links@[k2], text@) && links@[k2]
                                matches DetectedLink::TelegramFile { .. } by {
                                if k2 < last {
                                    assert(links@[k2] == before[k2]);
                                }
                            }
                        }
                        pos = d2end;
                    }
                    _ => {
                        pos = d2end;
                    }
                }
            }
            None => {
                break;
            }
        }
    }
}

/// Collect public Telegram links `https?://t.me/(s/)?<username>/<message>`
/// with a channel username of five to thirty-two word characters that
/// does not start with a digit.
fn scan_telegram_public(text: &str, links: &mut Vec<DetectedLink>)
    requires
        all_telegram(old(links)@, text@),
    ensures
        all_telegram(final(links)@, text@),
{
    let n = text.unicode_len();
    let mut pos: usize = 0;
    while pos <= n
        invariant
            n == text@.len(),
            0 <= pos,
            all_telegram(links@, text@),
        decreases n + 1 - pos,
    {
        match find_sub(text, "t.me/", pos) {
            Some(p) => {
                proof {
                    reveal_strlit("t.me/");
                }
                let start = match proto_start(text, p) {
                    Some(s) => s,
                    None => {
                        pos = p + 1;
                        continue;
                    }
                };
                let after = p + 5;
                proof {
                    reveal_strlit("s/");
                }
                let ustart = if n - after >= 2 && crate::util::match_at(text, "s/", after) {
                    after + 2
                } else {
                    after
                };
                if ustart >= n {
                    pos = p + 1;
                    continue;
                }
                let first = text.get_char(ustart) as u32;
                let first_ok = (97 <= first && first <= 122) || (65 <= first && first <= 90)
                    || first == 95;
                if !first_ok {
                    pos = p + 1;
                    continue;
                }
                let uend = word_run_end(text, ustart);
                let ulen = uend - ustart;
                if ulen < 5 || ulen > 32 {
                    pos = p + 1;
                    continue;
                }
                if uend >= n || text.get_char(uend) as u32 != 47 {
                    pos = p + 1;
                    continue;
                }
                let dstart = uend + 1;
                let dend = digit_run_end(text, dstart);
                if dend == dstart {
                    pos = p + 1;
                    continue;
                }
                let msg_str = text.substring_char(dstart, dend);
                let msg_ok: Option<i32> = match parse_u64(msg_str) {
                    Some(v) => {
                        if 0 < v && v <= 2147483647u64 {
                            Some(v as i32)
                        } else {
                            None
                        }
                    }
                    None => None,
                };
                let message_id = match msg_ok {
                    Some(m) => m,
                    None => {
                        pos = dend;
                        continue;
                    }
                };
                let url = text.substring_char(start, dend).to_owned();
                let mut dup = false;
                let mut k: usize = 0;
                while k < links.len()
                    invariant
                        0 <= k <= links@.len(),
                        all_telegram(links@, text@),
                        n == text@.len(),
                    decreases links@.len() - k,
                {
                    if str_eq(links[k].url(), url.as_str()) {
                        dup = true;
                    }
                    k = k + 1;
                }
                if !dup {
                    let username = text.substring_char(ustart, uend).to_owned();
                    let ghost uv = url@;
                    let ghost st = start as int;
                    proof {
                        assert(is_match_at(text@, uv, st));
                    }
                    let ghost before = links@;
                    links.push(
                        DetectedLink::TelegramFile {
                            url,
                            username: Some(username),
                            channel_id: None,
                            message_id,
                        },
                    );
                    proof {
                        let last = links@.len() - 1;
                        assert(links@[last].spec_url() == uv);
                        assert(is_match_at(text@, links@[last].spec_url(), st));
                        assert(link_wf(links@[last]));
                        assert forall|k2: int| 0 <= k2 < links@.len() implies link_wf(
                            #[trigger] links@[k2],
                        ) && link_in_text(links@[k2], text@) && links@[k2]
                            matches DetectedLink::TelegramFile { .. } by {
                            if k2 < last {
                                assert(links@[k2] == before[k2]);
                            }
                        }
                    }
                }
                pos = dend;
            }
            None => {
                break;
            }
        }
    }
}

/// The first generic URL in the text, if any: a protocol followed by at
/// least one URL character.
fn scan_generic(text: &str) -> (r: Option<DetectedLink>)
    ensures
        match r {
            Some(l) => link_wf(l) && link_in_text(l, text@) && l
                matches DetectedLink::Unsupported { .. },
            None => forall|j: int| !generic_url_at(text@, j),
        },
{
    let n = text.unicode_len();
    let mut pos: usize = 0;
    while pos <= n
        invariant
            n == text@.len(),
            0 <= pos,
            forall|j: int| 0 <= j < pos ==> !generic_url_at(text@, j),
        decreases n + 1 - pos,
    {
        proof {
            reveal_strlit("https://");
            reveal_strlit("http://");
        }
        let pa = find_sub(text, "https://", pos);
        let pb = find_sub(text, "http://", pos);
        let chosen: Option<(usize, usize)> = match (pa, pb) {
            (Some(a), Some(b)) => {
                if a <= b {
                    Some((a, 8))
                } else {
                    Some((b, 7))
                }
            }
            (Some(a), None) => Some((a, 8)),
            (None, Some(b)) => Some((b, 7)),
            (None, None) => None,
        };
        match chosen {
            Some((p, alen)) => {
                let runend = url_run_end(text, p);
                if runend > p + alen {
                    let url = text.substring_char(p, runend).to_owned();
                    let ghost uv = url@;
                    let ghost st = p as int;
                    proof {
                        assert(is_match_at(text@, uv, st));
                    }
                    let found = DetectedLink::Unsupported { url };
                    proof {
                        assert(found.spec_url() == uv);
                        assert(is_match_at(text@, found.spec_url(), st));
                        assert(link_wf(found));
                    }
                    return Some(found);
                }
                proof {
                    lemma_anchor_chars_are_url_chars(text@, p as int, alen as int);
                    assert forall|j: int| 0 <= j <= p implies !generic_url_at(text@, j) by {
                        if pos <= j && j < p {
                            assert(!is_match_at(text@, "https://"@, j));
                            assert(!is_match_at(text@, "http://"@, j));
                        }
                        if j == p {
                            assert(runend >= p + alen);
                            assert(runend == p + alen);
                            if (p + alen) < n {
                                assert(!is_url_char(text@[p as int + alen as int]));
                            }
                            if is_match_at(text@, "https://"@, p as int) && is_match_at(
                                text@,
                                "http://"@,
                                p as int,
                            ) {
                                assert(text@.subrange(p as int, p as int + 8)[4] == text@[p
                                    as int + 4]);
                                assert(text@.subrange(p as int, p as int + 7)[4] == text@[p
                                    as int + 4]);
                                assert("https://"@[4] == 's');
                                assert("http://"@[4] == '/');
                            }
                        }
                    }
                }
                pos = p + 1;
            }
            None => {
                proof {
                    assert forall|j: int| !generic_url_at(text@, j) by {
                        if 0 <= j && j < pos {
                        } else if pos <= j {
                            assert(!is_match_at(text@, "https://"@, j));
                            assert(!is_match_at(text@, "http://"@, j));
                        }
                    }
                }
                return None;
            }
        }
    }
    proof {
        assert forall|j: int| !generic_url_at(text@, j) by {
            reveal_strlit("https://");
            reveal_strlit("http://");
            if 0 <= j && j < pos {
            } else if j >= pos {
                assert(j + 8 > text@.len() && j + 7 > text@.len());
            }
        }
    }
    None
}

/// The characters of a protocol anchor matched at `p` are URL characters.
proof fn lemma_anchor_chars_are_url_chars(s: Seq<char>, p: int, alen: int)
    requires
        (is_match_at(s, "https://"@, p) && alen == 8) || (is_match_at(s, "http://"@, p) && alen
            == 7),
    ensures
        forall|t: int| p <= t < p + alen ==> is_url_char(#[trigger] s[t]),
{
    reveal_strlit("https://");
    reveal_strlit("http://");
    if is_match_at(s, "https://"@, p) && alen == 8 {
        assert forall|t: int| p <= t < p + alen implies is_url_char(#[trigger] s[t]) by {
            assert(s.subrange(p, p + 8)[t - p] == s[t]);
            assert(s[t] == "https://"@[t - p]);
        }
    } else {
        assert forall|t: int| p <= t < p + alen implies is_url_char(#[trigger] s[t]) by {
            assert(s.subrange(p, p + 7)[t - p] == s[t]);
            assert(s[t] == "http://"@[t - p]);
        }
    }
}

/// Detect every supported link in a message. YouTube links are gathered
/// first, playlists before shorts, music and plain videos; Telegram links
/// are considered only when no YouTube link matched; and a single generic
/// URL is reported, as unsupported, only when nothing else did.
pub fn detect_links(text: &str) -> (r: Vec<DetectedLink>)
    ensures
        forall|k: int|
            0 <= k < r@.len() ==> link_wf(#[trigger] r@[k]) && link_in_text(r@[k], text@),
        (exists|k: int| 0 <= k < r@.len() && (#[trigger] r@[k]).spec_is_youtube()) ==> forall|
            k: int,
        | 0 <= k < r@.len() ==> (#[trigger] r@[k]).spec_is_youtube(),
        (exists|k: int|
            0 <= k < r@.len() && (#[trigger] r@[k]) matches DetectedLink::TelegramFile { .. })
            ==> forall|k: int|
            0 <= k < r@.len() ==> (#[trigger] r@[k]) matches DetectedLink::TelegramFile { .. },
        (exists|k: int|
            0 <= k < r@.len() && (#[trigger] r@[k]) matches DetectedLink::Unsupported { .. })
            ==> r@.len() == 1,
        (exists|j: int| generic_url_at(text@, j)) ==> r@.len() > 0,
        (exists|j: int| youtube_match_at(text@, j)) ==> (r@.len() > 0 && forall|k: int|
            0 <= k < r@.len() ==> (#[trigger] r@[k]).spec_is_youtube()),
{
    let mut links: Vec<DetectedLink> = Vec::new();
    scan_playlists(text, &mut links);
    proof {
        reveal_strlit("youtube.com/shorts/");
        reveal_strlit("music.youtube.com/watch?v=");
    }
    scan_eleven(text, "youtube.com/shorts/", true, &mut links, true);
    scan_eleven(text, "music.youtube.com/watch?v=", false, &mut links, false);
    scan_videos(text, &mut links);
    if links.len() > 0 {
        return links;
    }
    proof {
        assert forall|j: int| !youtube_match_at(text@, j) by {}
    }
    scan_telegram_private(text, &mut links);
    scan_telegram_public(text, &mut links);
    if links.len() > 0 {
        return links;
    }
    match scan_generic(text) {
        Some(l) => {
            links.push(l);
        }
        None => {}
    }
    links
}

/// Detect the first link in a message: the common single-link case.
pub fn detect_first_link(text: &str) -> (r: Option<DetectedLink>)
    ensures
        r matches Some(l) ==> link_wf(l) && link_in_text(l, text@),
        (exists|j: int| generic_url_at(text@, j)) ==> r is Some,
        (exists|j: int| youtube_match_at(text@, j)) ==> (r matches Some(l) && l.spec_is_youtube()),
{
    let mut links = detect_links(text);
    if links.len() > 0 {
        let first = links.remove(0);
        Some(first)
    } else {
        None
    }
}

} // verus!
