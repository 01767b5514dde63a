//! The token-substitution templating engine: extracting `$name` tokens
//! from a format string, mapping each token to a value of the current
//! track or status, and substituting them into the template.

use vstd::prelude::*;
use vstd::string::StrSliceExecFns;
use vstd::string::StringExecFns;

use crate::player::PlayerStatus;
use crate::player::Track;
use crate::player::try_get_first_tag;
use crate::strings::replace_all;
use crate::strings::replace_all_spec;
use crate::strings::str_eq;

verus! {

/// A word character: what may follow `$` inside a token name.
pub open spec fn is_word_char(c: char) -> bool {
    ('a' <= c && c <= 'z') || ('A' <= c && c <= 'Z') || ('0' <= c && c <= '9') || c == '_'
}

/// Length of the maximal run of word characters starting at `i`.
pub open spec fn word_run_len(s: Seq<char>, i: int) -> int
    recommends
        0 <= i <= s.len(),
    decreases s.len() - i,
{
    if i < s.len() && is_word_char(s[i]) {
        1 + word_run_len(s, i + 1)
    } else {
        0
    }
}

proof fn lemma_word_run_len_bounds(s: Seq<char>, i: int)
    requires
        0 <= i <= s.len(),
    ensures
        0 <= word_run_len(s, i) <= s.len() - i,
        i < s.len() && is_word_char(s[i]) ==> word_run_len(s, i) >= 1,
    decreases s.len() - i,
{
    if i < s.len() && is_word_char(s[i]) {
        lemma_word_run_len_bounds(s, i + 1);
    }
}

/// The token names of `s` from position `i` on, in order of occurrence,
/// duplicates included: each `$` followed by at least one word character
/// starts a token whose name is the maximal word run after the `$`.
pub open spec fn tokens_from(s: Seq<char>, i: int) -> Seq<Seq<char>>
    recommends
        0 <= i,
    decreases s.len() - i,
        when 0 <= i
        via tokens_from_decreases
{
    if i >= s.len() {
        Seq::empty()
    } else if s[i] == '$' && i + 1 < s.len() && is_word_char(s[i + 1]) {
        let l = word_run_len(s, i + 1);
        seq![s.subrange(i + 1, i + 1 + l)] + tokens_from(s, i + 1 + l)
    } else {
        tokens_from(s, i + 1)
    }
}

#[via_fn]
proof fn tokens_from_decreases(s: Seq<char>, i: int) {
    if i < s.len() && s[i] == '$' && i + 1 < s.len() && is_word_char(s[i + 1]) {
        lemma_word_run_len_bounds(s, i + 1);
    }
}

/// Keeps the first occurrence of each element, in order.
pub open spec fn dedup_spec(ts: Seq<Seq<char>>) -> Seq<Seq<char>>
    decreases ts.len(),
{
    if ts.len() == 0 {
        Seq::empty()
    } else {
        let rest = dedup_spec(ts.drop_last());
        if ts.drop_last().contains(ts.last()) {
            rest
        } else {
            rest.push(ts.last())
        }
    }
}

/// The ordered set of distinct token names in a format string.
pub open spec fn extract_tokens_spec(s: Seq<char>) -> Seq<Seq<char>> {
    dedup_spec(tokens_from(s, 0))
}

/// Deduplication keeps exactly the elements that were there.
proof fn lemma_dedup_contains(ts: Seq<Seq<char>>, x: Seq<char>)
    ensures
        dedup_spec(ts).contains(x) == ts.contains(x),
    decreases ts.len(),
{
    if ts.len() == 0 {
    } else {
        let front = ts.drop_last();
        lemma_dedup_contains(front, x);
        if ts.contains(x) {
            let k = choose|k: int| 0 <= k < ts.len() && ts[k] == x;
            if k < ts.len() - 1 {
                assert(front[k] == x);
                assert(front.contains(x));
            }
            if front.contains(ts.last()) {
                if !front.contains(x) {
                    assert(ts.last() == x);
                    assert(front.contains(x));
                }
                assert(dedup_spec(front).contains(x));
            } else {
                if front.contains(x) {
                    let m = choose|m: int| 0 <= m < dedup_spec(front).len()
                        && dedup_spec(front)[m] == x;
                    assert(dedup_spec(front).push(ts.last())[m] == x);
                    assert(dedup_spec(ts).contains(x));
                } else {
                    assert(ts.last() == x);
                    let e = dedup_spec(front).len() as int;
                    assert(dedup_spec(front).push(x)[e] == x);
                    assert(dedup_spec(ts).contains(x));
                }
            }
        } else {
            assert(!front.contains(x)) by {
                if front.contains(x) {
                    let k = choose|k: int| 0 <= k < front.len() && front[k] == x;
                    assert(ts[k] == x);
                }
            }
            assert(ts.last() != x) by {
                if ts.last() == x {
                    assert(ts[ts.len() - 1] == x);
                }
            }
            if !front.contains(ts.last()) {
                assert(!dedup_spec(front).push(ts.last()).contains(x)) by {
                    if dedup_spec(front).push(ts.last()).contains(x) {
                        let m = choose|m: int| 0 <= m < dedup_spec(front).push(ts.last()).len()
                            && dedup_spec(front).push(ts.last())[m] == x;
                        if m < dedup_spec(front).len() {
                            assert(dedup_spec(front)[m] == x);
                            assert(dedup_spec(front).contains(x));
                        }
                    }
                }
            }
        }
    }
}

fn word_char(c: char) -> (r: bool)
    ensures
        r == is_word_char(c),
{
    ('a' <= c && c <= 'z') || ('A' <= c && c <= 'Z') || ('0' <= c && c <= '9') || c == '_'
}

/// Whether `toks` already holds `tok`.
fn contains_str(toks: &Vec<String>, tok: &str) -> (r: bool)
    ensures
        r == toks.deep_view().contains(tok@),
{
    let n = toks.len();
    let mut i: usize = 0;
    while i < n
        invariant
            i <= n,
            n == toks@.len(),
            forall|j: int| 0 <= j < i ==> toks.deep_view()[j] != tok@,
        decreases n - i,
    {
        if str_eq(toks[i].as_str(), tok) {
            proof {
                assert(toks.deep_view()[i as int] == tok@);
            }
            return true;
        }
        i = i + 1;
    }
    proof {
        assert forall|j: int| 0 <= j < toks.deep_view().len() implies toks.deep_view()[j] != tok@
        by {
            assert(toks.deep_view()[j] == toks@[j]@);
        }
    }
    false
}

/// Extracts the formatting tokens from a format string: the distinct
/// token names, in order of first occurrence.
pub fn extract_tokens(template: &str) -> (r: Vec<String>)
    ensures
        r.deep_view() == extract_tokens_spec(template@),
{
    let n = template.unicode_len();
    let mut toks: Vec<String> = Vec::new();
    let ghost mut raw: Seq<Seq<char>> = Seq::empty();
    let mut i: usize = 0;
    proof {
        assert(raw + tokens_from(template@, 0) =~= tokens_from(template@, 0));
    }
    while i < n
        invariant
            i <= n,
            n == template@.len(),
            tokens_from(template@, 0) == raw + tokens_from(template@, i as int),
            toks.deep_view() == dedup_spec(raw),
        decreases n - i,
    {
        let c = template.get_char(i);
        let is_tok_start = c == '$' && i + 1 < n && word_char(template.get_char(i + 1));
        if is_tok_start {
            let mut j = i + 1;
            proof {
                lemma_word_run_len_bounds(template@, i as int + 1);
            }
            while j < n && word_char(template.get_char(j))
                invariant
                    i + 1 <= j <= n,
                    n == template@.len(),
                    word_run_len(template@, i as int + 1) == (j - i - 1) + word_run_len(
                        template@,
                        j as int,
                    ),
                    word_run_len(template@, j as int) <= n - j,
                decreases n - j,
            {
                proof {
                    lemma_word_run_len_bounds(template@, j as int + 1);
                }
                j = j + 1;
            }
            let tok = template.substring_char(i + 1, j);
            proof {
                assert(word_run_len(template@, j as int) == 0);
                assert(j == i + 1 + word_run_len(template@, i as int + 1));
                assert(tokens_from(template@, i as int) == seq![
                    template@.subrange(i as int + 1, j as int),
                ] + tokens_from(template@, j as int));
            }
            let dup = contains_str(&toks, tok);
            proof {
                lemma_dedup_contains(raw, tok@);
                assert(raw.push(tok@).drop_last() =~= raw);
            }
            if !dup {
                let owned = String::from_str(tok);
                toks.push(owned);
                proof {
                    assert(toks.deep_view() =~= dedup_spec(raw).push(tok@));
                    assert(dedup_spec(raw.push(tok@)) == dedup_spec(raw).push(tok@));
                }
            } else {
                proof {
                    assert(dedup_spec(raw.push(tok@)) == dedup_spec(raw));
                }
            }
            proof {
                assert(raw.push(tok@) + tokens_from(template@, j as int) =~= raw + tokens_from(
                    template@,
                    i as int,
                ));
                raw = raw.push(tok@);
            }
            i = j;
        } else {
            proof {
                assert(tokens_from(template@, i as int) == tokens_from(template@, i as int + 1));
            }
            i = i + 1;
        }
    }
    proof {
        assert(tokens_from(template@, n as int) =~= Seq::<Seq<char>>::empty());
        assert(raw + tokens_from(template@, n as int) =~= raw);
        assert(toks.deep_view() == extract_tokens_spec(template@));
    }
    toks
}

/// The decimal digit character for `d`.
pub open spec fn digit_char(d: int) -> char
    recommends
        0 <= d <= 9,
{
    if d == 0 {
        '0'
    } else if d == 1 {
        '1'
    } else if d == 2 {
        '2'
    } else if d == 3 {
        '3'
    } else if d == 4 {
        '4'
    } else if d == 5 {
        '5'
    } else if d == 6 {
        '6'
    } else if d == 7 {
        '7'
    } else if d == 8 {
        '8'
    } else {
        '9'
    }
}

/// `n` zero-padded to two decimal digits.
pub open spec fn two_digits(n: int) -> Seq<char>
    recommends
        0 <= n <= 99,
{
    seq![digit_char(n / 10), digit_char(n % 10)]
}

/// A whole-second count rendered as `mm:ss`. The minute component wraps
/// modulo 60, so values of an hour or more lose their hour part; this is
/// the established display behaviour, kept deliberately.
pub open spec fn format_time_spec(t: u64) -> Seq<char> {
    two_digits(((t / 60) % 60) as int) + seq![':'] + two_digits((t % 60) as int)
}

fn digit_str(d: u64) -> (r: &'static str)
    requires
        d <= 9,
    ensures
        r@ == seq![digit_char(d as int)],
{
    proof {
        reveal_strlit("0");
        reveal_strlit("1");
        reveal_strlit("2");
        reveal_strlit("3");
        reveal_strlit("4");
        reveal_strlit("5");
        reveal_strlit("6");
        reveal_strlit("7");
        reveal_strlit("8");
        reveal_strlit("9");
    }
    let r = if d == 0 {
        "0"
    } else if d == 1 {
        "1"
    } else if d == 2 {
        "2"
    } else if d == 3 {
        "3"
    } else if d == 4 {
        "4"
    } else if d == 5 {
        "5"
    } else if d == 6 {
        "6"
    } else if d == 7 {
        "7"
    } else if d == 8 {
        "8"
    } else {
        "9"
    };
    proof {
        assert(r@ =~= seq![digit_char(d as int)]);
    }
    r
}

/// Formats a whole-second count as `mm:ss`, minutes wrapping modulo 60.
pub fn format_time(time: u64) -> (r: String)
    ensures
        r@ == format_time_spec(time),
{
    let minutes = (time / 60) % 60;
    let seconds = time % 60;
    let mut out = String::new();
    out.append(digit_str(minutes / 10));
    out.append(digit_str(minutes % 10));
    out.append(":");
    out.append(digit_str(seconds / 10));
    out.append(digit_str(seconds % 10));
    proof {
        reveal_strlit(":");
        assert((":")@ =~= seq![':']);
        assert(out@ =~= format_time_spec(time));
    }
    out
}

/// The first value of a tag, or the literal fallback for a missing one.
pub open spec fn tag_or_unknown(vals: Seq<String>) -> Seq<char> {
    if vals.len() == 0 {
        ("unknown")@
    } else {
        vals[0]@
    }
}

/// The value substituted for one token name: the fixed token table of the
/// templating engine. An unrecognized token echoes its own name.
pub open spec fn token_value_spec(tok: Seq<char>, track: Track, status: PlayerStatus) -> Seq<
    char,
> {
    if tok == ("title")@ {
        match track.title {
            Some(t) => t@,
            None => ("unknown")@,
        }
    } else if tok == ("album")@ {
        tag_or_unknown(track.album@)
    } else if tok == ("artist")@ {
        tag_or_unknown(track.artist@)
    } else if tok == ("albumartist")@ {
        tag_or_unknown(track.album_artist@)
    } else if tok == ("date")@ {
        tag_or_unknown(track.date@)
    } else if tok == ("disc")@ {
        tag_or_unknown(track.disc@)
    } else if tok == ("genre")@ {
        tag_or_unknown(track.genre@)
    } else if tok == ("track")@ {
        tag_or_unknown(track.track_number@)
    } else if tok == ("duration")@ {
        match status.duration {
            Some(d) => format_time_spec(d),
            None => ("N/A")@,
        }
    } else if tok == ("elapsed")@ {
        match status.elapsed {
            Some(e) => format_time_spec(e),
            None => ("N/A")@,
        }
    } else {
        tok
    }
}

fn first_tag_or_unknown(vals: &Vec<String>) -> (r: String)
    ensures
        r@ == tag_or_unknown(vals@),
{
    match try_get_first_tag(Some(vals)) {
        Some(v) => String::from_str(v),
        None => String::from_str("unknown"),
    }
}

fn opt_seconds_or_na(secs: &Option<u64>) -> (r: String)
    ensures
        r@ == match secs {
            Some(t) => format_time_spec(*t),
            None => ("N/A")@,
        },
{
    match secs {
        Some(t) => format_time(*t),
        None => String::from_str("N/A"),
    }
}

/// Converts a format token name into its value for the given track and
/// status, per the fixed token table.
pub fn get_token_value(track: &Track, status: &PlayerStatus, token: &str) -> (r: String)
    ensures
        r@ == token_value_spec(token@, *track, *status),
{
    if str_eq(token, "title") {
        match &track.title {
            Some(t) => t.clone(),
            None => String::from_str("unknown"),
        }
    } else if str_eq(token, "album") {
        first_tag_or_unknown(&track.album)
    } else if str_eq(token, "artist") {
        first_tag_or_unknown(&track.artist)
    } else if str_eq(token, "albumartist") {
        first_tag_or_unknown(&track.album_artist)
    } else if str_eq(token, "date") {
        first_tag_or_unknown(&track.date)
    } else if str_eq(token, "disc") {
        first_tag_or_unknown(&track.disc)
    } else if str_eq(token, "genre") {
        first_tag_or_unknown(&track.genre)
    } else if str_eq(token, "track") {
        first_tag_or_unknown(&track.track_number)
    } else if str_eq(token, "duration") {
        opt_seconds_or_na(&status.duration)
    } else if str_eq(token, "elapsed") {
        opt_seconds_or_na(&status.elapsed)
    } else {
        String::from_str(token)
    }
}

/// The result of substituting the listed tokens into `template`, one
/// replacement pass per token, in list order.
pub open spec fn render_spec(
    template: Seq<char>,
    toks: Seq<Seq<char>>,
    track: Track,
    status: PlayerStatus,
) -> Seq<char>
    decreases toks.len(),
{
    if toks.len() == 0 {
        template
    } else {
        render_spec(
            replace_all_spec(
                template,
                seq!['$'] + toks[0],
                token_value_spec(toks[0], track, status),
            ),
            toks.drop_first(),
            track,
            status,
        )
    }
}

/// Replaces each formatting token in the format string with its value
/// from the current track and status. `tokens` is the token list that
/// `extract_tokens` found in this same format string at load time.
pub fn replace_tokens(
    format_string: &str,
    tokens: &Vec<String>,
    track: &Track,
    status: &PlayerStatus,
) -> (r: String)
    ensures
        r@ == render_spec(format_string@, tokens.deep_view(), *track, *status),
{
    let mut compiled = String::from_str(format_string);
    let n = tokens.len();
    let mut idx: usize = 0;
    proof {
        assert(tokens.deep_view().skip(0) =~= tokens.deep_view());
    }
    while idx < n
        invariant
            idx <= n,
            n == tokens@.len(),
            render_spec(format_string@, tokens.deep_view(), *track, *status) == render_spec(
                compiled@,
                tokens.deep_view().skip(idx as int),
                *track,
                *status,
            ),
        decreases n - idx,
    {
        let value = get_token_value(track, status, tokens[idx].as_str());
        let mut pat = String::from_str("$");
        pat.append(tokens[idx].as_str());
        proof {
            reveal_strlit("$");
            assert(("$")@ =~= seq!['$']);
            assert(pat@ == seq!['$'] + tokens.deep_view()[idx as int]);
        }
        compiled = replace_all(compiled.as_str(), pat.as_str(), value.as_str());
        proof {
            assert(tokens.deep_view().skip(idx as int)[0] == tokens.deep_view()[idx as int]);
            assert(tokens.deep_view().skip(idx as int).drop_first() =~= tokens.deep_view().skip(
                idx as int + 1,
            ));
        }
        idx = idx + 1;
    }
    proof {
        assert(tokens.deep_view().skip(n as int).len() == 0);
    }
    compiled
}

/// No `$` occurs in `s`.
pub open spec fn no_dollar(s: Seq<char>) -> bool {
    forall|i: int| 0 <= i < s.len() ==> s[i] != '$'
}

/// A nonempty name made of word characters only.
pub open spec fn is_word_token(t: Seq<char>) -> bool {
    t.len() >= 1 && (forall|j: int| 0 <= j < t.len() ==> is_word_char(#[trigger] t[j]))
}

pub open spec fn all_word_tokens(toks: Seq<Seq<char>>) -> bool {
    forall|k: int| 0 <= k < toks.len() ==> is_word_token(#[trigger] toks[k])
}

/// The name `t` stands right after position `i` of `s`.
pub open spec fn follows_at(s: Seq<char>, i: int, t: Seq<char>) -> bool {
    i + 1 + t.len() <= s.len() && s.subrange(i + 1, i + 1 + t.len()) == t
}

/// Every `$` in `s` is immediately followed by one of the names in
/// `toks`.
pub open spec fn dollars_covered(s: Seq<char>, toks: Seq<Seq<char>>) -> bool {
    forall|i: int|
        0 <= i < s.len() && #[trigger] s[i] == '$' ==> (exists|k: int|
            0 <= k < toks.len() && follows_at(s, i, #[trigger] toks[k]))
}

/// Every `$` in the template begins a token: it is followed by at least
/// one word character.
pub open spec fn wellformed_template(s: Seq<char>) -> bool {
    forall|i: int|
        0 <= i < s.len() && #[trigger] s[i] == '$' ==> i + 1 < s.len() && is_word_char(s[i + 1])
}

proof fn lemma_word_run_chars(s: Seq<char>, i: int)
    requires
        0 <= i <= s.len(),
    ensures
        forall|j: int| i <= j < i + word_run_len(s, i) ==> is_word_char(#[trigger] s[j]),
    decreases s.len() - i,
{
    lemma_word_run_len_bounds(s, i);
    if i < s.len() && is_word_char(s[i]) {
        lemma_word_run_chars(s, i + 1);
        lemma_word_run_len_bounds(s, i + 1);
    }
}

proof fn lemma_tokens_from_wordy(s: Seq<char>, p: int)
    requires
        0 <= p,
    ensures
        all_word_tokens(tokens_from(s, p)),
    decreases s.len() - p,
{
    if p >= s.len() {
    } else if s[p] == '$' && p + 1 < s.len() && is_word_char(s[p + 1]) {
        let l = word_run_len(s, p + 1);
        lemma_word_run_len_bounds(s, p + 1);
        lemma_word_run_chars(s, p + 1);
        lemma_tokens_from_wordy(s, p + 1 + l);
        let t = s.subrange(p + 1, p + 1 + l);
        assert(is_word_token(t)) by {
            assert forall|j: int| 0 <= j < t.len() implies is_word_char(#[trigger] t[j]) by {
                assert(t[j] == s[p + 1 + j]);
            }
        }
        assert forall|k: int| 0 <= k < tokens_from(s, p).len() implies is_word_token(
            #[trigger] tokens_from(s, p)[k],
        ) by {
            if k == 0 {
                assert(tokens_from(s, p)[0] == t);
            } else {
                assert(tokens_from(s, p)[k] == tokens_from(s, p + 1 + l)[k - 1]);
            }
        }
    } else {
        lemma_tokens_from_wordy(s, p + 1);
    }
}

proof fn lemma_tokens_from_covers(s: Seq<char>, p: int)
    requires
        0 <= p,
        wellformed_template(s),
    ensures
        forall|i: int|
            p <= i < s.len() && #[trigger] s[i] == '$' ==> (exists|k: int|
                0 <= k < tokens_from(s, p).len() && follows_at(s, i, #[trigger] tokens_from(s, p)[k])),
    decreases s.len() - p,
{
    if p >= s.len() {
    } else if s[p] == '$' && p + 1 < s.len() && is_word_char(s[p + 1]) {
        let l = word_run_len(s, p + 1);
        lemma_word_run_len_bounds(s, p + 1);
        lemma_word_run_chars(s, p + 1);
        lemma_tokens_from_covers(s, p + 1 + l);
        let t = s.subrange(p + 1, p + 1 + l);
        assert forall|i: int| p <= i < s.len() && #[trigger] s[i] == '$' implies (exists|k: int|
            0 <= k < tokens_from(s, p).len() && follows_at(s, i, #[trigger] tokens_from(s, p)[k]))
        by {
            if i == p {
                assert(tokens_from(s, p)[0] == t);
                assert(follows_at(s, p, t));
            } else if i < p + 1 + l {
                assert(is_word_char(s[i]));
                assert(false);
            } else {
                let k0 = choose|k0: int|
                    0 <= k0 < tokens_from(s, p + 1 + l).len() && follows_at(
                        s,
                        i,
                        #[trigger] tokens_from(s, p + 1 + l)[k0],
                    );
                assert(tokens_from(s, p)[k0 + 1] == tokens_from(s, p + 1 + l)[k0]);
                assert(follows_at(s, i, tokens_from(s, p)[k0 + 1]));
            }
        }
    } else {
        lemma_tokens_from_covers(s, p + 1);
        assert forall|i: int| p <= i < s.len() && #[trigger] s[i] == '$' implies (exists|k: int|
            0 <= k < tokens_from(s, p).len() && follows_at(s, i, #[trigger] tokens_from(s, p)[k]))
        by {
            if i == p {
                assert(i + 1 < s.len() && is_word_char(s[i + 1]));
                assert(false);
            } else {
                let k0 = choose|k0: int|
                    0 <= k0 < tokens_from(s, p + 1).len() && follows_at(
                        s,
                        i,
                        #[trigger] tokens_from(s, p + 1)[k0],
                    );
                assert(follows_at(s, i, tokens_from(s, p)[k0]));
            }
        }
    }
}

proof fn lemma_covered_dedup(s: Seq<char>, raw: Seq<Seq<char>>)
    requires
        dollars_covered(s, raw),
    ensures
        dollars_covered(s, dedup_spec(raw)),
{
    assert forall|i: int| 0 <= i < s.len() && #[trigger] s[i] == '$' implies (exists|k: int|
        0 <= k < dedup_spec(raw).len() && follows_at(s, i, #[trigger] dedup_spec(raw)[k])) by {
        let k0 = choose|k0: int| 0 <= k0 < raw.len() && follows_at(s, i, #[trigger] raw[k0]);
        assert(raw.contains(raw[k0]));
        lemma_dedup_contains(raw, raw[k0]);
        let k = choose|k: int| 0 <= k < dedup_spec(raw).len() && dedup_spec(raw)[k] == raw[k0];
        assert(follows_at(s, i, dedup_spec(raw)[k]));
    }
}

proof fn lemma_dedup_wordy(raw: Seq<Seq<char>>)
    requires
        all_word_tokens(raw),
    ensures
        all_word_tokens(dedup_spec(raw)),
{
    assert forall|k: int| 0 <= k < dedup_spec(raw).len() implies is_word_token(
        #[trigger] dedup_spec(raw)[k],
    ) by {
        let x = dedup_spec(raw)[k];
        assert(dedup_spec(raw).contains(x));
        lemma_dedup_contains(raw, x);
        let j = choose|j: int| 0 <= j < raw.len() && raw[j] == x;
        assert(is_word_token(raw[j]));
    }
}

proof fn lemma_covered_skip(s: Seq<char>, toks: Seq<Seq<char>>, m: int)
    requires
        0 <= m <= s.len(),
        dollars_covered(s, toks),
    ensures
        dollars_covered(s.skip(m), toks),
{
    assert forall|i: int| 0 <= i < s.skip(m).len() && #[trigger] s.skip(m)[i] == '$' implies (
    exists|k: int| 0 <= k < toks.len() && follows_at(s.skip(m), i, #[trigger] toks[k])) by {
        assert(s.skip(m)[i] == s[i + m]);
        let k = choose|k: int| 0 <= k < toks.len() && follows_at(s, i + m, #[trigger] toks[k]);
        assert(s.skip(m).subrange(i + 1, i + 1 + toks[k].len()) =~= s.subrange(
            i + m + 1,
            i + m + 1 + toks[k].len(),
        ));
        assert(follows_at(s.skip(m), i, toks[k]));
    }
}

proof fn lemma_covered_concat_left(u: Seq<char>, r: Seq<char>, toks: Seq<Seq<char>>)
    requires
        no_dollar(u),
        dollars_covered(r, toks),
    ensures
        dollars_covered(u + r, toks),
{
    assert forall|i: int| 0 <= i < (u + r).len() && #[trigger] (u + r)[i] == '$' implies (exists|
        k: int,
    | 0 <= k < toks.len() && follows_at(u + r, i, #[trigger] toks[k])) by {
        assert(i >= u.len());
        let j = i - u.len();
        assert((u + r)[i] == r[j]);
        let k = choose|k: int| 0 <= k < toks.len() && follows_at(r, j, #[trigger] toks[k]);
        assert((u + r).subrange(i + 1, i + 1 + toks[k].len()) =~= r.subrange(
            j + 1,
            j + 1 + toks[k].len(),
        ));
        assert(follows_at(u + r, i, toks[k]));
    }
}

proof fn lemma_covered_cons_dollar(r: Seq<char>, toks: Seq<Seq<char>>, t: Seq<char>)
    requires
        dollars_covered(r, toks),
        toks.contains(t),
        t.len() <= r.len(),
        r.take(t.len() as int) == t,
    ensures
        dollars_covered(seq!['$'] + r, toks),
{
    let s = seq!['$'] + r;
    assert forall|i: int| 0 <= i < s.len() && #[trigger] s[i] == '$' implies (exists|k: int|
        0 <= k < toks.len() && follows_at(s, i, #[trigger] toks[k])) by {
        if i == 0 {
            let k = choose|k: int| 0 <= k < toks.len() && toks[k] == t;
            assert(s.subrange(1, 1 + t.len() as int) =~= r.take(t.len() as int));
            assert(follows_at(s, 0, toks[k]));
        } else {
            let j = i - 1;
            assert(s[i] == r[j]);
            let k = choose|k: int| 0 <= k < toks.len() && follows_at(r, j, #[trigger] toks[k]);
            assert(s.subrange(i + 1, i + 1 + toks[k].len()) =~= r.subrange(
                j + 1,
                j + 1 + toks[k].len(),
            ));
            assert(follows_at(s, i, toks[k]));
        }
    }
}

proof fn lemma_replace_clean_prefix(u: Seq<char>, w: Seq<char>, p: Seq<char>, v: Seq<char>)
    requires
        no_dollar(u),
        p.len() >= 1,
        p[0] == '$',
    ensures
        replace_all_spec(u + w, p, v) == u + replace_all_spec(w, p, v),
    decreases u.len(),
{
    if u.len() == 0 {
        assert(u + w =~= w);
        assert(u + replace_all_spec(w, p, v) =~= replace_all_spec(w, p, v));
    } else {
        let s = u + w;
        assert(s[0] == u[0]);
        if 1 <= p.len() <= s.len() && s.take(p.len() as int) == p {
            assert(s.take(p.len() as int)[0] == s[0]);
            assert(false);
        }
        assert(s.drop_first() =~= u.drop_first() + w);
        lemma_replace_clean_prefix(u.drop_first(), w, p, v);
        assert(seq![s[0]] + (u.drop_first() + replace_all_spec(w, p, v)) =~= u + replace_all_spec(
            w,
            p,
            v,
        ));
    }
}

proof fn lemma_replace_preserves_coverage(
    s: Seq<char>,
    t0: Seq<char>,
    rest: Seq<Seq<char>>,
    v: Seq<char>,
)
    requires
        is_word_token(t0),
        all_word_tokens(rest),
        no_dollar(v),
        dollars_covered(s, seq![t0] + rest),
    ensures
        dollars_covered(replace_all_spec(s, seq!['$'] + t0, v), rest),
    decreases s.len(),
{
    let p = seq!['$'] + t0;
    let all = seq![t0] + rest;
    assert(p[0] == '$');
    if s.len() == 0 {
        assert(replace_all_spec(s, p, v) =~= Seq::<char>::empty());
    } else if 1 <= p.len() <= s.len() && s.take(p.len() as int) == p {
        lemma_covered_skip(s, all, p.len() as int);
        lemma_replace_preserves_coverage(s.skip(p.len() as int), t0, rest, v);
        lemma_covered_concat_left(v, replace_all_spec(s.skip(p.len() as int), p, v), rest);
    } else {
        assert(s.drop_first() =~= s.skip(1));
        lemma_covered_skip(s, all, 1);
        lemma_replace_preserves_coverage(s.drop_first(), t0, rest, v);
        let rr = replace_all_spec(s.drop_first(), p, v);
        if s[0] != '$' {
            assert(no_dollar(seq![s[0]]));
            lemma_covered_concat_left(seq![s[0]], rr, rest);
        } else {
            let k = choose|k: int| 0 <= k < all.len() && follows_at(s, 0, #[trigger] all[k]);
            let tk = all[k];
            if k == 0 {
                assert(tk == t0);
                assert(s.take(p.len() as int) =~= p) by {
                    assert(s.subrange(1, 1 + t0.len() as int) == t0);
                    assert forall|j: int| 0 <= j < p.len() implies s.take(p.len() as int)[j]
                        == p[j] by {
                        if j == 0 {
                        } else {
                            assert(p[j] == t0[j - 1]);
                            assert(s[j] == s.subrange(1, 1 + t0.len() as int)[j - 1]);
                        }
                    }
                }
                assert(false);
            } else {
                assert(rest[k - 1] == tk);
                assert(rest.contains(tk));
                assert(no_dollar(tk)) by {
                    assert forall|j: int| 0 <= j < tk.len() implies tk[j] != '$' by {
                        assert(is_word_char(tk[j]));
                    }
                }
                let w = s.drop_first().skip(tk.len() as int);
                assert(s.drop_first() =~= tk + w) by {
                    assert(s.drop_first().len() == s.len() - 1 >= tk.len());
                    assert forall|j: int| 0 <= j < s.drop_first().len() implies s.drop_first()[j]
                        == (tk + w)[j] by {
                        if j < tk.len() {
                            assert(s.subrange(1, 1 + tk.len() as int)[j] == s[j + 1]);
                        }
                    }
                }
                lemma_replace_clean_prefix(tk, w, p, v);
                assert(rr == tk + replace_all_spec(w, p, v));
                assert(rr.take(tk.len() as int) =~= tk);
                lemma_covered_cons_dollar(rr, rest, tk);
                assert(seq![s[0]] + rr =~= seq!['$'] + rr);
            }
        }
    }
}

proof fn lemma_render_spec_no_dollar(
    template: Seq<char>,
    toks: Seq<Seq<char>>,
    track: Track,
    status: PlayerStatus,
)
    requires
        all_word_tokens(toks),
        dollars_covered(template, toks),
        forall|k: int|
            0 <= k < toks.len() ==> no_dollar(token_value_spec(#[trigger] toks[k], track, status)),
    ensures
        no_dollar(render_spec(template, toks, track, status)),
    decreases toks.len(),
{
    if toks.len() == 0 {
        assert forall|i: int| 0 <= i < template.len() implies template[i] != '$' by {
            if template[i] == '$' {
                let k = choose|k: int|
                    0 <= k < toks.len() && follows_at(template, i, #[trigger] toks[k]);
            }
        }
    } else {
        let t0 = toks[0];
        let v = token_value_spec(t0, track, status);
        assert(seq![t0] + toks.drop_first() =~= toks);
        lemma_replace_preserves_coverage(template, t0, toks.drop_first(), v);
        assert(all_word_tokens(toks.drop_first())) by {
            assert forall|k: int| 0 <= k < toks.drop_first().len() implies is_word_token(
                #[trigger] toks.drop_first()[k],
            ) by {
                assert(toks.drop_first()[k] == toks[k + 1]);
            }
        }
        assert forall|k: int| 0 <= k < toks.drop_first().len() implies no_dollar(
            token_value_spec(#[trigger] toks.drop_first()[k], track, status),
        ) by {
            assert(toks.drop_first()[k] == toks[k + 1]);
        }
        lemma_render_spec_no_dollar(
            replace_all_spec(template, seq!['$'] + t0, v),
            toks.drop_first(),
            track,
            status,
        );
    }
}

/// Rendering is deterministic: what two renders of one template with one
/// token list return is fixed by the track and status snapshots alone —
/// `replace_tokens` pins its result to `render_spec`, and `render_spec`
/// is a function of its arguments.
pub proof fn lemma_render_deterministic(
    template: Seq<char>,
    toks: Seq<Seq<char>>,
    track: Track,
    status: PlayerStatus,
    first: Seq<char>,
    second: Seq<char>,
)
    requires
        first == render_spec(template, toks, track, status),
        second == render_spec(template, toks, track, status),
    ensures
        first == second,
{
}

/// For a template in which every `$` begins a token, substituting the
/// template's own extracted token list leaves no `$` in the rendered
/// result, as long as no substituted token value itself contains a `$`.
pub proof fn lemma_render_leaves_no_dollar(
    template: Seq<char>,
    track: Track,
    status: PlayerStatus,
)
    requires
        wellformed_template(template),
        forall|k: int|
            0 <= k < extract_tokens_spec(template).len() ==> no_dollar(
                token_value_spec(#[trigger] extract_tokens_spec(template)[k], track, status),
            ),
    ensures
        no_dollar(render_spec(template, extract_tokens_spec(template), track, status)),
{
    let raw = tokens_from(template, 0);
    lemma_tokens_from_wordy(template, 0);
    lemma_tokens_from_covers(template, 0);
    assert(dollars_covered(template, raw));
    lemma_covered_dedup(template, raw);
    lemma_dedup_wordy(raw);
    lemma_render_spec_no_dollar(template, extract_tokens_spec(template), track, status);
}

} // verus!
