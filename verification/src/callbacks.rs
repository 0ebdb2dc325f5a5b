//! The colon-delimited short-token scheme behind inline keyboard buttons:
//! each button carries a tag, a short session key, and an optional inline
//! choice, as in `dv:a3f2b1:2`. Encoding and decoding are centralized
//! here, and an unrecognized tag decodes to nothing rather than erroring.
use vstd::prelude::*;

use crate::util::all_digits;
use crate::util::dec_digits;
use crate::util::dec_value;
use crate::util::find_char;
use crate::util::first_pos;
use crate::util::parse_usize;
use crate::util::str_eq;
use crate::util::u64_to_string;

verus! {

/// Download mode: full video, or audio extracted from it.
#[derive(Clone, Copy, Debug, PartialEq, Eq, Structural)]
pub enum DownloadMode {
    Video,
    Audio,
}

impl DownloadMode {
    /// The display name of the mode.
    pub open spec fn spec_str(self) -> Seq<char> {
        match self {
            DownloadMode::Video => "video"@,
            DownloadMode::Audio => "audio"@,
        }
    }

    /// The display name of the mode.
    pub fn as_str(&self) -> (r: &'static str)
        ensures
            r@ == self.spec_str(),
    {
        match self {
            DownloadMode::Video => "video",
            DownloadMode::Audio => "audio",
        }
    }

    /// The callback tag of the mode.
    pub open spec fn spec_prefix(self) -> Seq<char> {
        match self {
            DownloadMode::Video => "dv"@,
            DownloadMode::Audio => "da"@,
        }
    }

    /// The callback tag of the mode.
    pub fn callback_prefix(&self) -> (r: &'static str)
        ensures
            r@ == self.spec_prefix(),
    {
        match self {
            DownloadMode::Video => "dv",
            DownloadMode::Audio => "da",
        }
    }

    /// The mode behind a callback tag; an unknown tag gives nothing.
    pub fn from_prefix(prefix: &str) -> (r: Option<DownloadMode>)
        ensures
            match r {
                Some(m) => prefix@ == m.spec_prefix(),
                None => prefix@ != "dv"@ && prefix@ != "da"@,
            },
    {
        if str_eq(prefix, "dv") {
            Some(DownloadMode::Video)
        } else if str_eq(prefix, "da") {
            Some(DownloadMode::Audio)
        } else {
            None
        }
    }
}

/// The text of a quality-selection button: mode tag, session key, and the
/// index of the chosen format.
pub open spec fn quality_callback(mode: DownloadMode, key: Seq<char>, index: nat) -> Seq<char> {
    mode.spec_prefix() + ":"@ + key + ":"@ + dec_digits(index)
}

/// Encode the callback text of a quality-selection button.
pub fn encode_callback(mode: &DownloadMode, prefix: &str, index: usize) -> (r: String)
    ensures
        r@ == quality_callback(*mode, prefix@, index as nat),
{
    let mut out = mode.callback_prefix().to_owned();
    out.append(":");
    out.append(prefix);
    out.append(":");
    let digits = u64_to_string(index as u64);
    out.append(digits.as_str());
    proof {
        assert(out@ =~= quality_callback(*mode, prefix@, index as nat));
    }
    out
}

/// Encode the callback text of a cancel button.
pub fn encode_cancel(prefix: &str) -> (r: String)
    ensures
        r@ == "cx:"@ + prefix@,
{
    let mut out = "cx:".to_owned();
    out.append(prefix);
    out
}

/// Encode the callback text of a search-result button.
pub fn encode_search_callback(prefix: &str, index: usize) -> (r: String)
    ensures
        r@ == "sr:"@ + prefix@ + ":"@ + dec_digits(index as nat),
{
    let mut out = "sr:".to_owned();
    out.append(prefix);
    out.append(":");
    let digits = u64_to_string(index as u64);
    out.append(digits.as_str());
    proof {
        assert(out@ =~= "sr:"@ + prefix@ + ":"@ + dec_digits(index as nat));
    }
    out
}

/// Encode the callback text of a search-result format choice: the key,
/// the chosen result's index, and an audio or video marker.
pub fn encode_search_format_callback(key: &str, index: usize, audio: bool) -> (r: String)
    ensures
        r@ == "sf:"@ + key@ + ":"@ + dec_digits(index as nat) + ":"@ + (if audio {
            "a"@
        } else {
            "v"@
        }),
{
    let mut out = "sf:".to_owned();
    out.append(key);
    out.append(":");
    let digits = u64_to_string(index as u64);
    out.append(digits.as_str());
    out.append(":");
    out.append(if audio {
        "a"
    } else {
        "v"
    });
    proof {
        assert(out@ =~= "sf:"@ + key@ + ":"@ + dec_digits(index as nat) + ":"@ + (if audio {
            "a"@
        } else {
            "v"@
        }));
    }
    out
}

/// The choice offered by a playlist confirmation button.
#[derive(Clone, Copy, Debug, PartialEq, Eq, Structural)]
pub enum PlaylistChoice {
    /// Download the whole playlist.
    Playlist,
    /// Download just the single video.
    Single,
    /// Abandon the flow.
    Cancel,
}

impl PlaylistChoice {
    /// The one-letter marker of the choice.
    pub open spec fn spec_marker(self) -> Seq<char> {
        match self {
            PlaylistChoice::Playlist => "p"@,
            PlaylistChoice::Single => "s"@,
            PlaylistChoice::Cancel => "x"@,
        }
    }

    /// The one-letter marker of the choice.
    pub fn marker(&self) -> (r: &'static str)
        ensures
            r@ == self.spec_marker(),
    {
        match self {
            PlaylistChoice::Playlist => "p",
            PlaylistChoice::Single => "s",
            PlaylistChoice::Cancel => "x",
        }
    }

    /// The choice behind a marker; an unknown marker gives nothing.
    pub fn from_marker(s: &str) -> (r: Option<PlaylistChoice>)
        ensures
            match r {
                Some(c) => s@ == c.spec_marker(),
                None => s@ != "p"@ && s@ != "s"@ && s@ != "x"@,
            },
    {
        if str_eq(s, "p") {
            Some(PlaylistChoice::Playlist)
        } else if str_eq(s, "s") {
            Some(PlaylistChoice::Single)
        } else if str_eq(s, "x") {
            Some(PlaylistChoice::Cancel)
        } else {
            None
        }
    }
}

/// Encode the callback text of a playlist confirmation button.
pub fn encode_playlist_confirm(key: &str, choice: PlaylistChoice) -> (r: String)
    ensures
        r@ == "pc:"@ + key@ + ":"@ + choice.spec_marker(),
{
    let mut out = "pc:".to_owned();
    out.append(key);
    out.append(":");
    out.append(choice.marker());
    proof {
        assert(out@ =~= "pc:"@ + key@ + ":"@ + choice.spec_marker());
    }
    out
}

/// Encode the callback text of a playlist track-limit button; zero stands
/// for all tracks.
pub fn encode_playlist_limit(key: &str, limit: u32) -> (r: String)
    ensures
        r@ == "pl:"@ + key@ + ":"@ + dec_digits(limit as nat),
{
    let mut out = "pl:".to_owned();
    out.append(key);
    out.append(":");
    let digits = u64_to_string(limit as u64);
    out.append(digits.as_str());
    proof {
        assert(out@ =~= "pl:"@ + key@ + ":"@ + dec_digits(limit as nat));
    }
    out
}

/// Encode the callback text of a playlist format button.
pub fn encode_playlist_format(key: &str, audio: bool) -> (r: String)
    ensures
        r@ == "pf:"@ + key@ + ":"@ + (if audio {
            "a"@
        } else {
            "v"@
        }),
{
    let mut out = "pf:".to_owned();
    out.append(key);
    out.append(":");
    out.append(if audio {
        "a"
    } else {
        "v"
    });
    proof {
        assert(out@ =~= "pf:"@ + key@ + ":"@ + (if audio {
            "a"@
        } else {
            "v"@
        }));
    }
    out
}

/// What a decoded three-part callback, or a two-part cancel callback,
/// must look like. The decode succeeds on `tag:key:index` with a numeric
/// index that fits the machine, and on `cx:key`, which decodes with the
/// largest index as its marker; everything else decodes to nothing.
pub open spec fn decode_spec(data: Seq<char>, r: Option<(String, String, usize)>) -> bool {
    let n = data.len() as int;
    let c1 = first_pos(data, ':', 0);
    let c2 = first_pos(data, ':', c1 + 1);
    let c3 = first_pos(data, ':', c2 + 1);
    if c1 == n {
        r is None
    } else if c2 == n {
        if data.subrange(0, c1) == "cx"@ {
            r matches Some((tag, key, index)) && tag@ == "cx"@ && key@ == data.subrange(c1 + 1, n)
                && index == usize::MAX
        } else {
            r is None
        }
    } else if c3 != n {
        r is None
    } else {
        let third = data.subrange(c2 + 1, n);
        if third.len() > 0 && all_digits(third) && dec_value(third) <= usize::MAX {
            r matches Some((tag, key, index)) && tag@ == data.subrange(0, c1) && key@
                == data.subrange(c1 + 1, c2) && index == dec_value(third)
        } else {
            r is None
        }
    }
}

/// Decode a three-part callback `tag:key:index`, or a two-part cancel
/// callback `cx:key`, into its tag, key and index.
pub fn decode_callback(data: &str) -> (r: Option<(String, String, usize)>)
    ensures
        decode_spec(data@, r),
{
    let n = data.unicode_len();
    let c1 = match find_char(data, ':', 0) {
        Some(i) => i,
        None => {
            return None;
        }
    };
    match find_char(data, ':', c1 + 1) {
        Some(c2) => {
            match find_char(data, ':', c2 + 1) {
                Some(_) => None,
                None => {
                    let third = data.substring_char(c2 + 1, n);
                    match parse_usize(third) {
                        Some(index) => {
                            let tag = data.substring_char(0, c1).to_owned();
                            let key = data.substring_char(c1 + 1, c2).to_owned();
                            Some((tag, key, index))
                        }
                        None => None,
                    }
                }
            }
        }
        None => {
            let tag = data.substring_char(0, c1);
            if str_eq(tag, "cx") {
                let key = data.substring_char(c1 + 1, n).to_owned();
                Some(("cx".to_owned(), key, usize::MAX))
            } else {
                None
            }
        }
    }
}

/// Law: the quality-selection micro-protocol round-trips. For any mode,
/// any key free of the separator, and any index, the encoded button text
/// decodes back to exactly that tag, key and index — never to nothing and
/// never to other values.
pub proof fn lemma_quality_callback_round_trip(
    mode: DownloadMode,
    key: Seq<char>,
    index: usize,
    r: Option<(String, String, usize)>,
)
    requires
        forall|i: int| 0 <= i < key.len() ==> key[i] != ':',
        decode_spec(quality_callback(mode, key, index as nat), r),
    ensures
        r matches Some((tag, k, idx)) && tag@ == mode.spec_prefix() && k@ == key && idx == index,
{
    reveal_strlit("dv");
    reveal_strlit("da");
    reveal_strlit(":");
    crate::util::lemma_dec_digits_value(index as nat);
    let data = quality_callback(mode, key, index as nat);
    let prefix = mode.spec_prefix();
    let digits = dec_digits(index as nat);
    let klen = key.len() as int;
    let n = data.len() as int;
    match mode {
        DownloadMode::Video => {
            assert(prefix == "dv"@);
            assert(prefix.len() == 2);
            assert(prefix[0] == 'd' && prefix[1] == 'v');
        }
        DownloadMode::Audio => {
            assert(prefix == "da"@);
            assert(prefix.len() == 2);
            assert(prefix[0] == 'd' && prefix[1] == 'a');
        }
    }
    assert(n == 2 + 1 + klen + 1 + digits.len());
    assert(data[0] == prefix[0] && data[1] == prefix[1]);
    assert(data[2] == ':');
    crate::util::lemma_first_pos_at(data, ':', 0, 2);
    assert forall|t: int| 3 <= t < 3 + klen implies data[t] != ':' by {
        assert(data[t] == key[t - 3]);
    }
    assert(data[3 + klen] == ':');
    crate::util::lemma_first_pos_at(data, ':', 3, 3 + klen);
    let c2 = 3 + klen;
    assert forall|t: int| c2 + 1 <= t < n implies data[t] != ':' by {
        assert(data[t] == digits[t - (c2 + 1)]);
        assert(crate::util::is_digit(digits[t - (c2 + 1)]));
        assert(digits[t - (c2 + 1)] as int <= 57);
        assert(':' as int == 58);
    }
    crate::util::lemma_first_pos_at(data, ':', c2 + 1, n);
    assert(data.subrange(c2 + 1, n) =~= digits);
    assert(data.subrange(0, 2) =~= prefix);
    assert(data.subrange(3, 3 + klen) =~= key);
    assert(crate::util::all_digits(data.subrange(c2 + 1, n)));
    assert(crate::util::dec_value(data.subrange(c2 + 1, n)) == index);
}

/// Law: the cancel form round-trips too. For any key free of the
/// separator, the encoded cancel text decodes back to the cancel tag,
/// the same key, and the largest index as its marker.
pub proof fn lemma_cancel_callback_round_trip(key: Seq<char>, r: Option<(String, String, usize)>)
    requires
        forall|i: int| 0 <= i < key.len() ==> key[i] != ':',
        decode_spec("cx:"@ + key, r),
    ensures
        r matches Some((tag, k, idx)) && tag@ == "cx"@ && k@ == key && idx == usize::MAX,
{
    reveal_strlit("cx:");
    reveal_strlit("cx");
    let data = "cx:"@ + key;
    let n = data.len() as int;
    assert(n == 3 + key.len());
    assert(data[0] == 'c' && data[1] == 'x' && data[2] == ':');
    crate::util::lemma_first_pos_at(data, ':', 0, 2);
    assert forall|t: int| 3 <= t < n implies data[t] != ':' by {
        assert(data[t] == key[t - 3]);
    }
    crate::util::lemma_first_pos_at(data, ':', 3, n);
    assert(data.subrange(0, 2) =~= "cx"@);
    assert(data.subrange(3, n) =~= key);
}

} // verus!
