//! WebDAV backup storage: request addresses, the basic authorization header, the
//! reading of a directory listing (PROPFIND answer) and which backups pruning removes.
//! The requests themselves happen outside.
use vstd::prelude::*;

use vstd::utf8::encode_utf8;

use crate::crypto::{base64_encode, base64_text};
use crate::net::{parse_u64, parse_u64_chars};
use crate::numbers::opt_str_view;
use crate::remote::{strip_leading, strip_leading_exec, strip_trailing, strip_trailing_exec};
use crate::text::{
    chars_of, lemma_lex_le_antisym, lemma_lex_le_total, lemma_lex_le_trans, lex_le, lex_lt, owned, push_str,
    slice_chars, str_eq, str_le, string_from_chars,
};

verus! {

/// WebDAV connection settings.
#[derive(Debug, Clone)]
pub struct WebDavConfig {
    pub server_url: String,
    pub username: String,
    pub password: String,
    pub backup_root: String,
}

impl WebDavConfig {
    /// No server, and backups under `shmtu-backup`.
    pub fn default_config() -> (c: Self)
        ensures
            c.server_url@.len() == 0,
            c.username@.len() == 0,
            c.password@.len() == 0,
            c.backup_root@ == "shmtu-backup"@,
    {
        WebDavConfig { server_url: String::new(), username: String::new(), password: String::new(), backup_root: owned("shmtu-backup") }
    }
}

/// An uploaded backup.
#[derive(Debug, Clone)]
pub struct UploadResult {
    pub remote_path: String,
    pub remote_url: String,
    pub bytes: u64,
    pub uploaded_at: i64,
}

/// A backup file found on the server.
#[derive(Debug, Clone)]
pub struct BackupMeta {
    pub remote_path: String,
    pub name: String,
    pub size: u64,
    pub last_modified: i64,
}

/// Address of a path on the server: the server URL without trailing slashes, a slash,
/// and the path without leading slashes.
pub open spec fn dav_url(server_url: Seq<char>, path: Seq<char>) -> Seq<char> {
    strip_trailing(server_url, '/') + "/"@ + strip_leading(path, "/"@)
}

/// The address of `path` on the server.
pub fn webdav_url(server_url: &str, path: &str) -> (r: String)
    ensures
        r@ == dav_url(server_url@, path@),
{
    let mut v = strip_trailing_exec(&chars_of(server_url), '/');
    push_str(&mut v, "/");
    let slash = chars_of("/");
    let rest = strip_leading_exec(&chars_of(path), &slash);
    crate::text::push_chars(&mut v, &rest);
    string_from_chars(v.as_slice())
}

/// The basic authorization header of a user name and password.
pub open spec fn basic_auth(username: Seq<char>, password: Seq<char>) -> Seq<char> {
    "Basic "@ + base64_text(encode_utf8(username + ":"@ + password))
}

/// The `Authorization` header for the configured account.
pub fn auth_header(config: &WebDavConfig) -> (r: String)
    ensures
        r@ == basic_auth(config.username@, config.password@),
{
    let mut v = chars_of(config.username.as_str());
    push_str(&mut v, ":");
    push_str(&mut v, config.password.as_str());
    let creds = string_from_chars(v.as_slice());
    let encoded = base64_encode(creds.as_str().as_bytes());
    crate::error::concat_str("Basic ", encoded.as_str())
}

/// Position of the last `/` in `s`, if any.
pub open spec fn last_slash(s: Seq<char>) -> Option<int>
    decreases s.len(),
{
    if s.len() == 0 {
        None
    } else if s.last() == '/' {
        Some(s.len() - 1)
    } else {
        last_slash(s.drop_last())
    }
}

proof fn lemma_last_slash(s: Seq<char>)
    ensures
        match last_slash(s) {
            Some(i) => 0 <= i < s.len() && s[i] == '/',
            None => true,
        },
    decreases s.len(),
{
    if s.len() > 0 && s.last() != '/' {
        lemma_last_slash(s.drop_last());
    }
}

fn last_slash_exec(v: &Vec<char>) -> (r: Option<usize>)
    ensures
        match r {
            Some(i) => last_slash(v@) == Some(i as int),
            None => last_slash(v@) is None,
        },
{
    let mut n = v.len();
    assert(v@.take(n as int) =~= v@);
    while n > 0
        invariant
            n <= v.len(),
            last_slash(v@.take(n as int)) == last_slash(v@),
        decreases n,
    {
        assert(v@.take(n as int).last() == v@[n - 1]);
        assert(v@.take(n as int).drop_last() =~= v@.take(n - 1));
        if v[n - 1] == '/' {
            return Some(n - 1);
        }
        n = n - 1;
    }
    None
}

/// The directory part of a remote path: up to its last slash, empty when none.
pub open spec fn parent_of(path: Seq<char>) -> Seq<char> {
    match last_slash(path) {
        Some(i) => path.take(i),
        None => Seq::empty(),
    }
}

/// The directory an upload to `remote_path` must exist in (empty when none).
pub fn parent_dir(remote_path: &str) -> (r: String)
    ensures
        r@ == parent_of(remote_path@),
{
    let v = chars_of(remote_path);
    proof {
        lemma_last_slash(v@);
    }
    match last_slash_exec(&v) {
        Some(i) => {
            let p = slice_chars(&v, 0, i);
            assert(p@ =~= v@.take(i as int));
            string_from_chars(p.as_slice())
        },
        None => String::new(),
    }
}

/// The text after the last slash (`str::rsplit('/').next()`).
pub open spec fn last_segment(s: Seq<char>) -> Seq<char> {
    match last_slash(s) {
        Some(i) => s.skip(i + 1),
        None => s,
    }
}

fn last_segment_exec(v: &Vec<char>) -> (r: Vec<char>)
    ensures
        r@ == last_segment(v@),
{
    proof {
        lemma_last_slash(v@);
    }
    match last_slash_exec(v) {
        Some(i) => {
            let n = v.len();
            assert(i < n);
            let r = slice_chars(v, i + 1, n);
            assert(r@ =~= v@.skip(i + 1));
            r
        },
        None => slice_chars(v, 0, v.len()),
    }
}

/// For each successive non-overlapping match of a regular expression in a text, its
/// first capture group (`None` when the group did not take part); `None` when the
/// pattern is not a valid expression.
pub uninterp spec fn regex_group1(pattern: Seq<char>, text: Seq<char>) -> Option<Seq<Option<Seq<char>>>>;

/// Compiles `pattern` with `regex::Regex::new` and walks `captures_iter` over `text`,
/// keeping the first capture group of each match; `None` when the pattern does not
/// compile. The contract names the result. The first of these matches is the one
/// `Regex::captures` gives, and there is one exactly when `Regex::is_match` holds.
#[verifier::external_body]
fn regex_group1_all(pattern: &str, text: &str) -> (r: Option<Vec<Option<String>>>)
    ensures
        match r {
            Some(v) => regex_group1(pattern@, text@) == Some(v@.map_values(|o: Option<String>| opt_str_view(o))),
            None => regex_group1(pattern@, text@) is None,
        },
{
    let re = regex::Regex::new(pattern).ok()?;
    Some(re.captures_iter(text).map(|c| c.get(1).map(|m| m.as_str().to_string())).collect())
}

/// The pattern of one `response` element of a listing.
pub open spec fn response_pattern() -> Seq<char> {
    "(?is)<(?:D:)?response[^>]*>(.*?)</(?:D:)?response>"@
}

/// The pattern of the `href` of a response.
pub open spec fn href_pattern() -> Seq<char> {
    "(?i)<(?:D:)?href[^>]*>(.*?)</(?:D:)?href>"@
}

/// The pattern of the content length of a response.
pub open spec fn size_pattern() -> Seq<char> {
    "(?i)<(?:D:)?getcontentlength[^>]*>(\\d+)</(?:D:)?getcontentlength>"@
}

/// The pattern of a response that is a directory.
pub open spec fn collection_pattern() -> Seq<char> {
    "(?is)<(?:D:)?resourcetype[^>]*>.*<(?:D:)?collection.*</(?:D:)?resourcetype>"@
}

/// The first capture group of the first match.
pub open spec fn first_group(pattern: Seq<char>, text: Seq<char>) -> Option<Seq<char>> {
    match regex_group1(pattern, text) {
        Some(ms) => if ms.len() > 0 { ms[0] } else { None },
        None => None,
    }
}

/// The expression matches somewhere.
pub open spec fn any_match(pattern: Seq<char>, text: Seq<char>) -> bool {
    match regex_group1(pattern, text) {
        Some(ms) => ms.len() > 0,
        None => false,
    }
}

/// The bodies of the responses of a listing.
pub open spec fn response_bodies(xml: Seq<char>) -> Seq<Option<Seq<char>>> {
    match regex_group1(response_pattern(), xml) {
        Some(ms) => ms,
        None => Seq::empty(),
    }
}

/// The size a response gives, 0 when none can be read.
pub open spec fn size_of_response(body: Seq<char>) -> u64 {
    match first_group(size_pattern(), body) {
        Some(t) => match parse_u64(t) {
            Some(v) => v,
            None => 0,
        },
        None => 0,
    }
}

/// The backup a response describes, as (path, name, size): none for a directory, a
/// response without `href`, or an `href` that ends in a slash.
pub open spec fn backup_of_response(body: Seq<char>) -> Option<(Seq<char>, Seq<char>, u64)> {
    if any_match(collection_pattern(), body) {
        None
    } else {
        match first_group(href_pattern(), body) {
            Some(href) => if last_segment(href).len() == 0 {
                None
            } else {
                Some((strip_leading(href, "/"@), last_segment(href), size_of_response(body)))
            },
            None => None,
        }
    }
}

/// The backups of a sequence of responses, in order.
pub open spec fn backups_of(bodies: Seq<Option<Seq<char>>>) -> Seq<(Seq<char>, Seq<char>, u64)>
    decreases bodies.len(),
{
    if bodies.len() == 0 {
        Seq::empty()
    } else {
        let prev = backups_of(bodies.drop_last());
        match bodies.last() {
            Some(b) => match backup_of_response(b) {
                Some(e) => prev.push(e),
                None => prev,
            },
            None => prev,
        }
    }
}

/// A backup entry as (path, name, size).
pub open spec fn meta_view(m: BackupMeta) -> (Seq<char>, Seq<char>, u64) {
    (m.remote_path@, m.name@, m.size)
}

fn first_group_exec(pattern: &str, text: &str) -> (r: Option<String>)
    ensures
        opt_str_view(r) == first_group(pattern@, text@),
{
    match regex_group1_all(pattern, text) {
        Some(ms) => {
            if ms.len() > 0 {
                let g = &ms[0];
                match g {
                    Some(s) => Some(s.clone()),
                    None => None,
                }
            } else {
                None
            }
        },
        None => None,
    }
}

fn any_match_exec(pattern: &str, text: &str) -> (b: bool)
    ensures
        b == any_match(pattern@, text@),
{
    match regex_group1_all(pattern, text) {
        Some(ms) => ms.len() > 0,
        None => false,
    }
}

fn backup_of_response_exec(body: &str) -> (r: Option<BackupMeta>)
    ensures
        match r {
            Some(m) => backup_of_response(body@) == Some(meta_view(m)) && m.last_modified == 0,
            None => backup_of_response(body@) is None,
        },
{
    if any_match_exec("(?is)<(?:D:)?resourcetype[^>]*>.*<(?:D:)?collection.*</(?:D:)?resourcetype>", body) {
        return None;
    }
    let href = match first_group_exec("(?i)<(?:D:)?href[^>]*>(.*?)</(?:D:)?href>", body) {
        Some(h) => h,
        None => {
            return None;
        },
    };
    let hv = chars_of(href.as_str());
    let name = last_segment_exec(&hv);
    if name.len() == 0 {
        return None;
    }
    let size: u64 = match first_group_exec("(?i)<(?:D:)?getcontentlength[^>]*>(\\d+)</(?:D:)?getcontentlength>", body) {
        Some(t) => match parse_u64_chars(&chars_of(t.as_str())) {
            Some(v) => v,
            None => 0,
        },
        None => 0,
    };
    let slash = chars_of("/");
    let path = strip_leading_exec(&hv, &slash);
    Some(BackupMeta {
        remote_path: string_from_chars(path.as_slice()),
        name: string_from_chars(name.as_slice()),
        size,
        last_modified: 0,
    })
}

/// Reads the backups out of a PROPFIND answer: one per response that is not a directory
/// and whose `href` names a file, with its path (leading slashes dropped), file name and
/// size (0 when unknown); modification times are not read.
pub fn parse_propfind(xml: &str) -> (r: Vec<BackupMeta>)
    ensures
        r@.map_values(|m: BackupMeta| meta_view(m)) == backups_of(response_bodies(xml@)),
        forall|i: int| 0 <= i < r@.len() ==> (#[trigger] r@[i]).last_modified == 0,
{
    let bodies: Vec<Option<String>> = match regex_group1_all("(?is)<(?:D:)?response[^>]*>(.*?)</(?:D:)?response>", xml) {
        Some(ms) => ms,
        None => Vec::new(),
    };
    let ghost bv = response_bodies(xml@);
    assert(bodies@.map_values(|o: Option<String>| opt_str_view(o)) =~= bv);
    let mut out: Vec<BackupMeta> = Vec::new();
    let mut i: usize = 0;
    while i < bodies.len()
        invariant
            i <= bodies.len(),
            bodies@.map_values(|o: Option<String>| opt_str_view(o)) == bv,
            out@.map_values(|m: BackupMeta| meta_view(m)) == backups_of(bv.take(i as int)),
            forall|k: int| 0 <= k < out@.len() ==> (#[trigger] out@[k]).last_modified == 0,
        decreases bodies.len() - i,
    {
        assert(bv.take(i + 1).drop_last() =~= bv.take(i as int));
        assert(bv.take(i + 1).last() == opt_str_view(bodies@[i as int]));
        match &bodies[i] {
            Some(b) => {
                match backup_of_response_exec(b.as_str()) {
                    Some(m) => {
                        let ghost before = out@;
                        out.push(m);
                        assert(out@.map_values(|m: BackupMeta| meta_view(m)) =~= before.map_values(|m: BackupMeta| meta_view(m)).push(meta_view(m)));
                    },
                    None => {},
                }
            },
            None => {},
        }
        i = i + 1;
    }
    assert(bv.take(bodies.len() as int) =~= bv);
    out
}

/// Inserts `x` into a list ordered by name, newest (greatest) first, after every entry
/// whose name is not smaller.
pub open spec fn insert_desc(s: Seq<BackupMeta>, x: BackupMeta) -> Seq<BackupMeta>
    decreases s.len(),
{
    if s.len() == 0 {
        seq![x]
    } else if lex_lt(s.last().name@, x.name@) {
        insert_desc(s.drop_last(), x).push(s.last())
    } else {
        s.push(x)
    }
}

/// The backups ordered by name, greatest first; entries of equal name keep their order
/// (a stable sort).
pub open spec fn sorted_by_name_desc(s: Seq<BackupMeta>) -> Seq<BackupMeta>
    decreases s.len(),
{
    if s.len() == 0 { Seq::empty() } else { insert_desc(sorted_by_name_desc(s.drop_last()), s.last()) }
}

/// Names never increase along the list.
pub open spec fn names_descending(s: Seq<BackupMeta>) -> bool {
    forall|i: int, j: int| 0 <= i < j < s.len() ==> lex_le((#[trigger] s[j]).name@, (#[trigger] s[i]).name@)
}

proof fn lemma_lex_not_lt(a: Seq<char>, b: Seq<char>)
    ensures
        !lex_lt(a, b) ==> lex_le(b, a),
        lex_lt(a, b) ==> lex_le(a, b),
{
    lemma_lex_le_total(a, b);
    if !lex_lt(a, b) && !lex_le(b, a) {
        assert(lex_le(a, b));
        assert(a == b);
        crate::text::lemma_lex_le_refl(a);
    }
}

proof fn lemma_insert_desc(s: Seq<BackupMeta>, x: BackupMeta)
    requires
        names_descending(s),
    ensures
        names_descending(insert_desc(s, x)),
        insert_desc(s, x).to_multiset() =~= s.to_multiset().insert(x),
        insert_desc(s, x).len() == s.len() + 1,
    decreases s.len(),
{
    broadcast use vstd::seq_lib::group_seq_properties, vstd::multiset::group_multiset_properties;
    if s.len() == 0 {
        assert(seq![x].to_multiset() =~= vstd::multiset::Multiset::<BackupMeta>::empty().insert(x)) by {
            assert(seq![x] =~= Seq::<BackupMeta>::empty().push(x));
        }
    } else if lex_lt(s.last().name@, x.name@) {
        let prev = s.drop_last();
        assert(names_descending(prev)) by {
            assert forall|i: int, j: int| 0 <= i < j < prev.len() implies lex_le((#[trigger] prev[j]).name@, (#[trigger] prev[i]).name@) by {
                assert(prev[i] == s[i] && prev[j] == s[j]);
            }
        }
        lemma_insert_desc(prev, x);
        let t = insert_desc(prev, x);
        let r = t.push(s.last());
        assert forall|i: int, j: int| 0 <= i < j < r.len() implies lex_le((#[trigger] r[j]).name@, (#[trigger] r[i]).name@) by {
            if j == r.len() - 1 {
                assert(r[j] == s.last());
                // every element of t is x or an element of prev, all not below s.last()
                assert(t.to_multiset().count(r[i]) > 0) by {
                    assert(t.contains(r[i])) by { assert(t[i] == r[i]); }
                }
                assert(prev.to_multiset().insert(x).count(r[i]) > 0);
                if r[i] == x {
                    lemma_lex_not_lt(s.last().name@, x.name@);
                } else {
                    assert(prev.to_multiset().count(r[i]) > 0);
                    assert(prev.contains(r[i]));
                    let k = choose|k: int| 0 <= k < prev.len() && prev[k] == r[i];
                    assert(s[k] == prev[k]);
                    assert(lex_le(s[s.len() - 1].name@, s[k].name@));
                }
            } else {
                assert(r[i] == t[i] && r[j] == t[j]);
            }
        }
        assert(s =~= prev.push(s.last()));
    } else {
        let r = s.push(x);
        assert forall|i: int, j: int| 0 <= i < j < r.len() implies lex_le((#[trigger] r[j]).name@, (#[trigger] r[i]).name@) by {
            if j == s.len() {
                lemma_lex_not_lt(s.last().name@, x.name@);
                if i < s.len() - 1 {
                    assert(lex_le(s[s.len() - 1].name@, s[i].name@));
                    lemma_lex_le_trans(x.name@, s[s.len() - 1].name@, s[i].name@);
                }
            } else {
                assert(r[i] == s[i] && r[j] == s[j]);
            }
        }
    }
}

/// The stable sort by name, greatest first, orders the backups and keeps each of them.
pub proof fn lemma_sorted_by_name_desc(s: Seq<BackupMeta>)
    ensures
        names_descending(sorted_by_name_desc(s)),
        sorted_by_name_desc(s).to_multiset() =~= s.to_multiset(),
        sorted_by_name_desc(s).len() == s.len(),
    decreases s.len(),
{
    broadcast use vstd::seq_lib::group_seq_properties, vstd::multiset::group_multiset_properties;
    if s.len() > 0 {
        lemma_sorted_by_name_desc(s.drop_last());
        lemma_insert_desc(sorted_by_name_desc(s.drop_last()), s.last());
        assert(s =~= s.drop_last().push(s.last()));
    }
}

fn str_lt(a: &str, b: &str) -> (r: bool)
    ensures
        r == lex_lt(a@, b@),
{
    str_le(a, b) && !str_eq(a, b)
}

/// The backups that pruning deletes to keep `max_keep`: when there are more, all but the
/// first `max_keep` in name order, greatest first (backup names carry their time).
pub fn prune_targets(list: Vec<BackupMeta>, max_keep: usize) -> (r: Vec<BackupMeta>)
    ensures
        list@.len() <= max_keep ==> r@.len() == 0,
        list@.len() > max_keep ==> r@ == sorted_by_name_desc(list@).skip(max_keep as int),
{
    let n = list.len();
    if n <= max_keep {
        return Vec::new();
    }
    let mut rest = list;
    let ghost all = rest@;
    let mut sorted: Vec<BackupMeta> = Vec::new();
    let mut i: usize = 0;
    while i < n
        invariant
            i <= n,
            n == all.len(),
            rest@ == all.skip(i as int),
            sorted@ == sorted_by_name_desc(all.take(i as int)),
        decreases n - i,
    {
        assert(all.take(i + 1).drop_last() =~= all.take(i as int));
        assert(all.take(i + 1).last() == all[i as int]);
        let x = rest.remove(0);
        assert(rest@ =~= all.skip(i + 1));
        let ghost before = sorted@;
        let mut p: usize = sorted.len();
        assert(before.take(p as int) =~= before);
        assert(before.skip(p as int) =~= Seq::<BackupMeta>::empty());
        while p > 0 && str_lt(sorted[p - 1].name.as_str(), x.name.as_str())
            invariant
                p <= sorted@.len(),
                sorted@ == before,
                insert_desc(before, x) == insert_desc(before.take(p as int), x) + before.skip(p as int),
            decreases p,
        {
            assert(before.take(p as int).drop_last() =~= before.take(p - 1));
            assert(before.take(p as int).last() == before[p - 1]);
            assert(before.skip(p - 1) =~= seq![before[p - 1]] + before.skip(p as int));
            assert(insert_desc(before.take(p - 1), x) + before.skip(p - 1)
                =~= insert_desc(before.take(p - 1), x).push(before[p - 1]) + before.skip(p as int));
            p = p - 1;
        }
        proof {
            if p > 0 {
                assert(before.take(p as int).last() == before[p - 1]);
            } else {
                assert(before.take(0) =~= Seq::<BackupMeta>::empty());
            }
        }
        sorted.insert(p, x);
        assert(sorted@ =~= insert_desc(before, x));
        i = i + 1;
    }
    assert(all.take(n as int) =~= all);
    let mut out: Vec<BackupMeta> = Vec::new();
    let ghost sv = sorted@;
    proof {
        lemma_sorted_by_name_desc(all);
    }
    let mut tail = sorted;
    let mut k: usize = 0;
    while k < n
        invariant
            k <= n,
            sv.len() == n,
            tail@ == sv.skip(k as int),
            k <= max_keep ==> out@.len() == 0,
            k > max_keep ==> out@ == sv.subrange(max_keep as int, k as int),
        decreases n - k,
    {
        let m = tail.remove(0);
        assert(tail@ =~= sv.skip(k + 1));
        if k >= max_keep {
            let ghost b = out@;
            out.push(m);
            assert(out@ =~= sv.subrange(max_keep as int, k + 1));
        }
        k = k + 1;
    }
    assert(sv.subrange(max_keep as int, n as int) =~= sv.skip(max_keep as int));
    out
}

/// A WebDAV answer that counts as a working connection: any 2xx status, 207 among them.
pub fn connection_ok(status: u16) -> (b: bool)
    ensures
        b == ((200 <= status && status <= 299) || status == 207),
{
    (200 <= status && status <= 299) || status == 207
}

/// The path of the probe file written by a write-and-read test under the backup root.
pub open spec fn probe_path(backup_root: Seq<char>) -> Seq<char> {
    strip_leading(backup_root, "/"@) + "/.shmtu-test"@
}

/// The path of the probe file of a write-and-read test, see [`probe_path`].
pub fn probe_file_path(backup_root: &str) -> (r: String)
    ensures
        r@ == probe_path(backup_root@),
{
    let root = chars_of(backup_root);
    let slash = chars_of("/");
    let mut v = strip_leading_exec(&root, &slash);
    push_str(&mut v, "/.shmtu-test");
    string_from_chars(v.as_slice())
}

/// The content written by a write-and-read test at `millis` milliseconds.
pub fn probe_content(millis: u64) -> (r: String)
    ensures
        r@ == "shmtu-cloud-test-"@ + crate::text::decimal(millis as nat),
{
    let mut v = chars_of("shmtu-cloud-test-");
    let d = crate::text::decimal_chars(millis);
    crate::text::push_chars(&mut v, &d);
    string_from_chars(v.as_slice())
}

/// The verdict of a write-and-read test: success when the text read back is the text
/// written.
pub fn write_read_verdict(written: &str, read_back: &str) -> (r: Result<String, String>)
    ensures
        written@ == read_back@ ==> (r matches Ok(m) && m@ == "✓ 读写验证成功"@),
        written@ != read_back@ ==> (r matches Err(m) && m@ == "读回内容不匹配"@),
{
    if str_eq(written, read_back) {
        Ok(owned("✓ 读写验证成功"))
    } else {
        Err(owned("读回内容不匹配"))
    }
}

} // verus!
