//! Decision helpers behind the chat command handlers: progress display,
//! edit throttling, URL normalization and error classification. The
//! handlers themselves are chat I/O; everything they decide is here.
use vstd::prelude::*;

use crate::util::dec_digits_signed;
use crate::util::find_char;
use crate::util::find_sub;
use crate::util::first_pos;
use crate::util::first_sub;
use crate::util::i64_to_string;
use crate::util::is_match_at;
use crate::util::lemma_first_sub_at;

verus! {

/// The character `c` repeated `n` times.
pub open spec fn char_repeat(c: char, n: int) -> Seq<char>
    decreases n,
{
    if n <= 0 {
        Seq::empty()
    } else {
        char_repeat(c, n - 1).push(c)
    }
}

/// The text of a progress bar for `percent`: twenty cells between
/// brackets, one filled for each five percent.
pub open spec fn bar_text(percent: u8) -> Seq<char> {
    let filled = percent as int / 5;
    let empty = if filled < 20 {
        20 - filled
    } else {
        0int
    };
    "["@ + char_repeat('=', filled) + char_repeat(' ', empty) + "]"@
}

/// Render a simple text progress bar.
pub fn progress_bar(percent: u8) -> (r: String)
    ensures
        r@ == bar_text(percent),
{
    proof {
        reveal_strlit("=");
        reveal_strlit(" ");
    }
    let filled: usize = percent as usize / 5;
    let empty: usize = if filled < 20 {
        20 - filled
    } else {
        0
    };
    let mut out = "[".to_owned();
    let mut k: usize = 0;
    while k < filled
        invariant
            0 <= k <= filled,
            out@ == "["@ + char_repeat('=', k as int),
        decreases filled - k,
    {
        out.append("=");
        k = k + 1;
        proof {
            reveal_strlit("=");
            assert(out@ =~= "["@ + char_repeat('=', k as int));
        }
    }
    let mut k2: usize = 0;
    while k2 < empty
        invariant
            0 <= k2 <= empty,
            out@ == "["@ + char_repeat('=', filled as int) + char_repeat(' ', k2 as int),
        decreases empty - k2,
    {
        out.append(" ");
        k2 = k2 + 1;
        proof {
            reveal_strlit(" ");
            assert(out@ =~= "["@ + char_repeat('=', filled as int) + char_repeat(' ', k2 as int));
        }
    }
    out.append("]");
    proof {
        assert(out@ =~= bar_text(percent));
    }
    out
}

/// Whether a progress report should reach the user: edits are throttled
/// to one every three seconds and to changes of at least five percent, so
/// consumers react to elapsed time plus percent delta, not to every
/// event.
pub fn should_edit_progress(elapsed_secs: u64, last_percent: i32, percent: i32) -> (r: bool)
    ensures
        r == (elapsed_secs >= 3 && (if percent >= last_percent {
            percent - last_percent
        } else {
            last_percent - percent
        }) >= 5),
{
    let delta: i64 = if percent >= last_percent {
        percent as i64 - last_percent as i64
    } else {
        last_percent as i64 - percent as i64
    };
    elapsed_secs >= 3 && delta >= 5
}

/// Whether a URL names an endless radio mix, whose playlist preview is
/// skipped: its list parameter starts with the mix marker.
pub fn is_radio_mix(url: &str) -> (r: bool)
    ensures
        r == ((exists|j: int| is_match_at(url@, "?list=RD"@, j)) || (exists|j: int|
            is_match_at(url@, "&list=RD"@, j))),
{
    let a = crate::util::contains_sub(url, "?list=RD");
    let b = crate::util::contains_sub(url, "&list=RD");
    a || b
}

/// The single-video URL extracted from a YouTube URL that may carry list
/// parameters: an eleven-character watch id is rebuilt as a bare watch
/// URL, a short-form link is cut at its query string, and anything else
/// is returned unchanged.
pub open spec fn extracted_url(u: Seq<char>) -> Seq<char> {
    let j = first_sub(u, "v="@, 0);
    let id_end = first_pos(u, '&', j + 2);
    if j < u.len() && id_end - (j + 2) == 11 {
        "https://www.youtube.com/watch?v="@ + u.subrange(j + 2, id_end)
    } else if first_sub(u, "youtu.be/"@, 0) < u.len() {
        let q = first_pos(u, '?', 0);
        if q < u.len() {
            u.subrange(0, q)
        } else {
            u
        }
    } else {
        u
    }
}

/// Strip list parameters from a YouTube URL, returning the bare
/// single-video URL.
pub fn extract_single_video_url(url: &str) -> (r: String)
    ensures
        r@ == extracted_url(url@),
{
    let n = url.unicode_len();
    proof {
        reveal_strlit("v=");
        reveal_strlit("youtu.be/");
    }
    match find_sub(url, "v=", 0) {
        Some(j) => {
            proof {
                lemma_first_sub_at(url@, "v="@, 0, j as int);
            }
            let idstart = j + 2;
            let id_end = match find_char(url, '&', idstart) {
                Some(e) => e,
                None => n,
            };
            if id_end - idstart == 11 {
                let vid = url.substring_char(idstart, id_end);
                let mut out = "https://www.youtube.com/watch?v=".to_owned();
                out.append(vid);
                return out;
            }
        }
        None => {
            proof {
                lemma_first_sub_at(url@, "v="@, 0, n as int);
            }
        }
    }
    match find_sub(url, "youtu.be/", 0) {
        Some(k) => {
            proof {
                lemma_first_sub_at(url@, "youtu.be/"@, 0, k as int);
            }
            match find_char(url, '?', 0) {
                Some(q) => url.substring_char(0, q).to_owned(),
                None => url.to_owned(),
            }
        }
        None => {
            proof {
                lemma_first_sub_at(url@, "youtu.be/"@, 0, n as int);
            }
            url.to_owned()
        }
    }
}

/// The per-user, per-task output directory: base, chat and task id joined
/// by path separators.
pub fn task_output_dir(base: &str, chat_id: i64, task_id: &str) -> (r: String)
    ensures
        r@ == base@ + "/"@ + dec_digits_signed(chat_id as int) + "/"@ + task_id@,
{
    let mut out = base.to_owned();
    out.append("/");
    let chat = i64_to_string(chat_id);
    out.append(chat.as_str());
    out.append("/");
    out.append(task_id);
    proof {
        assert(out@ =~= base@ + "/"@ + dec_digits_signed(chat_id as int) + "/"@ + task_id@);
    }
    out
}

/// Whether `pat` occurs anywhere in `s`.
pub open spec fn text_contains(s: Seq<char>, pat: Seq<char>) -> bool {
    exists|j: int| is_match_at(s, pat, j)
}

/// Turn a chat transport error report into a message for the user,
/// classified by the phrases the report carries.
pub fn telegram_error_message(err_text: &str) -> (r: String)
    ensures
        r@ == (if text_contains(err_text@, "chat not found"@) {
            "I don't have access to that channel.\nAdd me to the channel first, or make sure the link is correct."@
        } else if text_contains(err_text@, "message to copy not found"@) || text_contains(
            err_text@,
            "message not found"@,
        ) {
            "Message not found. It may have been deleted."@
        } else if text_contains(err_text@, "bot was kicked"@) || text_contains(
            err_text@,
            "bot is not a member"@,
        ) {
            "I'm not a member of that channel. Add me first."@
        } else {
            "Failed to forward: "@ + err_text@
        }),
{
    if crate::util::contains_sub(err_text, "chat not found") {
        "I don't have access to that channel.\nAdd me to the channel first, or make sure the link is correct.".to_owned()
    } else if crate::util::contains_sub(err_text, "message to copy not found")
        || crate::util::contains_sub(err_text, "message not found") {
        "Message not found. It may have been deleted.".to_owned()
    } else if crate::util::contains_sub(err_text, "bot was kicked") || crate::util::contains_sub(
        err_text,
        "bot is not a member",
    ) {
        "I'm not a member of that channel. Add me first.".to_owned()
    } else {
        let mut out = "Failed to forward: ".to_owned();
        out.append(err_text);
        out
    }
}

/// Shorten a label to at most `max` characters, ending a cut label with
/// an ellipsis.
pub fn truncate_label(title: &str, max: usize) -> (r: String)
    requires
        max >= 1,
    ensures
        r@ == (if title@.len() > max {
            title@.subrange(0, max as int - 1) + "\u{2026}"@
        } else {
            title@
        }),
{
    let n = title.unicode_len();
    if n > max {
        let mut out = title.substring_char(0, max - 1).to_owned();
        out.append("\u{2026}");
        out
    } else {
        title.to_owned()
    }
}

} // verus!
