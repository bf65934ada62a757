//! Deep links back to the log source's console: the group identifier is
//! stripped of the account prefix and of colons, then the group and stream
//! parts are each percent-encoded twice and spliced into the console URL.

use vstd::prelude::*;

verus! {

/// What `urlencoding::encode` returns for a string: its percent-encoded
/// form. The encoding is a function of the input characters alone.
pub uninterp spec fn percent_encoded(s: Seq<char>) -> Seq<char>;

/// Relies on `urlencoding::encode`: it percent-encodes every byte except
/// ASCII alphanumerics and `-`, `_`, `.`, `~`, and depends on the input
/// alone; an empty input stays empty.
#[verifier::external_body]
pub fn url_encode(s: &str) -> (r: String)
    ensures
        r@ == percent_encoded(s@),
        s@.len() == 0 ==> r@.len() == 0,
{
    urlencoding::encode(s).into_owned()
}

/// The text with every non-overlapping occurrence of `pat` removed, scanning
/// left to right; an empty pattern removes nothing.
pub open spec fn spec_remove_pattern(s: Seq<char>, pat: Seq<char>) -> Seq<char>
    decreases s.len(),
{
    if pat.len() == 0 || s.len() < pat.len() {
        s
    } else if s.take(pat.len() as int) == pat {
        spec_remove_pattern(s.skip(pat.len() as int), pat)
    } else {
        seq![s[0]] + spec_remove_pattern(s.skip(1), pat)
    }
}

/// Whether `pat` occurs in `s` at position `i`.
fn matches_at(s: &str, i: usize, pat: &str) -> (r: bool)
    requires
        i + pat@.len() <= s@.len(),
    ensures
        r == (s@.subrange(i as int, i + pat@.len()) == pat@),
{
    let plen = pat.unicode_len();
    let slen = s.unicode_len();
    let mut j: usize = 0;
    while j < plen
        invariant
            j <= plen,
            plen == pat@.len(),
            slen == s@.len(),
            i + plen <= s@.len(),
            forall|t: int| 0 <= t < j ==> s@[i + t] == pat@[t],
        decreases plen - j,
    {
        if s.get_char(i + j) != pat.get_char(j) {
            proof {
                assert(s@.subrange(i as int, i + pat@.len())[j as int] != pat@[j as int]);
            }
            return false;
        }
        j = j + 1;
    }
    proof {
        assert(s@.subrange(i as int, i + pat@.len()) =~= pat@);
    }
    true
}

/// Remove every non-overlapping occurrence of `pat` from `s`, scanning left
/// to right.
#[verifier::loop_isolation(false)]
pub fn remove_pattern(s: &str, pat: &str) -> (r: String)
    ensures
        r@ == spec_remove_pattern(s@, pat@),
{
    let slen = s.unicode_len();
    let plen = pat.unicode_len();
    let mut out = String::new();
    let mut i: usize = 0;
    proof {
        assert(s@.skip(0) =~= s@);
    }
    while i < slen
        invariant
            i <= slen,
            spec_remove_pattern(s@, pat@) == out@ + spec_remove_pattern(s@.skip(i as int), pat@),
        decreases slen - i,
    {
        let ghost rest = s@.skip(i as int);
        if plen > 0 && plen <= slen - i && matches_at(s, i, pat) {
            proof {
                assert(rest.take(pat@.len() as int) =~= s@.subrange(i as int, i + pat@.len()));
                assert(rest.skip(pat@.len() as int) =~= s@.skip(i + pat@.len()));
            }
            i = i + plen;
        } else {
            let piece = s.substring_char(i, i + 1);
            out.append(piece);
            proof {
                if plen > 0 && plen <= slen - i {
                    assert(rest.take(pat@.len() as int) =~= s@.subrange(i as int, i + pat@.len()));
                }
                assert(rest[0] == s@[i as int]);
                assert(piece@ =~= seq![s@[i as int]]);
                assert(rest.skip(1) =~= s@.skip(i as int + 1));
            }
            i = i + 1;
        }
    }
    proof {
        assert(s@.skip(slen as int).len() == 0);
    }
    out
}

/// The configuration the deep links are built from: the console's region and
/// the account prefix to strip from group identifiers.
#[derive(Debug, PartialEq)]
pub struct UrlConfig {
    /// Region name spliced into the console host and query.
    pub region: String,
    /// Account identifier stripped from group identifiers.
    pub account_id: String,
}

impl Clone for UrlConfig {
    fn clone(&self) -> (r: Self)
        ensures
            r.region@ == self.region@,
            r.account_id@ == self.account_id@,
    {
        UrlConfig { region: self.region.clone(), account_id: self.account_id.clone() }
    }
}

/// The group identifier as it appears in a console link: the account prefix
/// and all colons removed.
pub open spec fn spec_group_id_path(group_id: Seq<char>, account_id: Seq<char>) -> Seq<char> {
    spec_remove_pattern(spec_remove_pattern(group_id, account_id), seq![':'])
}

/// The console deep link for one record: region, the doubly percent-encoded
/// stripped group identifier, and the doubly percent-encoded stream name.
pub open spec fn spec_console_url(
    region: Seq<char>,
    account_id: Seq<char>,
    group_id: Seq<char>,
    stream_name: Seq<char>,
) -> Seq<char> {
    "https://"@ + region + ".console.aws.amazon.com/cloudwatch/home?region="@ + region
        + "#logsV2:log-groups/log-group/"@ + percent_encoded(
        percent_encoded(spec_group_id_path(group_id, account_id)),
    ) + "/log-events/"@ + percent_encoded(percent_encoded(stream_name))
}

/// Build the console deep link for a record delivered for a group and
/// stream.
pub fn generate_url(cfg: &UrlConfig, log_group_identifier: &str, log_stream_name: &str) -> (r:
    String)
    ensures
        r@ == spec_console_url(
            cfg.region@,
            cfg.account_id@,
            log_group_identifier@,
            log_stream_name@,
        ),
{
    proof {
        reveal_strlit(":");
    }
    let stripped = remove_pattern(log_group_identifier, cfg.account_id.as_str());
    let without_colons = remove_pattern(stripped.as_str(), ":");
    proof {
        assert(":"@ =~= seq![':']);
    }
    let group_once = url_encode(without_colons.as_str());
    let group_twice = url_encode(group_once.as_str());
    let stream_once = url_encode(log_stream_name);
    let stream_twice = url_encode(stream_once.as_str());
    let mut out = String::new();
    out.append("https://");
    out.append(cfg.region.as_str());
    out.append(".console.aws.amazon.com/cloudwatch/home?region=");
    out.append(cfg.region.as_str());
    out.append("#logsV2:log-groups/log-group/");
    out.append(group_twice.as_str());
    out.append("/log-events/");
    out.append(stream_twice.as_str());
    out
}

} // verus!
