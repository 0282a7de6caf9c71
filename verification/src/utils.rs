//! Identifiers and credentials derived from texts: deduplication keys, the feature id of a
//! Super Island notification, FTP credentials, password hashes and random passwords.
use vstd::prelude::*;
use vstd::string::*;
use vstd::utf8::*;
use crate::crypto::b64::{b64_decode, b64_encode_bytes, base64_of, base64_decoded};
use crate::crypto::digest::{hex_of, md5, md5_of, sha1_hex, sha1_of, sha256, sha256_hex, sha256_of};
use crate::json_model::{
    JsonLeaf, LeafView, get_member, get_str, json_object_of, members_view, object_text, parse_object, vmember,
    vstr, write_object,
};
use crate::text::{join_seq, owned, push_char, push_str, string_of};
use rand::Rng;

verus! {

// ===================== texts =====================

/// The texts held by a list of strings.
pub open spec fn texts_view(v: Seq<String>) -> Seq<Seq<char>> {
    v.map_values(|s: String| s@)
}

/// `prefix + v` as a one-element list when `v` is not empty, else nothing.
pub open spec fn opt_part(prefix: Seq<char>, v: Seq<char>) -> Seq<Seq<char>> {
    if v.len() > 0 {
        seq![prefix + v]
    } else {
        Seq::empty()
    }
}

/// The text, or empty when there is none.
pub open spec fn or_empty(v: Option<Seq<char>>) -> Seq<char> {
    match v {
        Some(s) => s,
        None => Seq::empty(),
    }
}

/// Appends `prefix + v` when `v` is not empty.
fn push_opt_part(parts: &mut Vec<String>, prefix: &str, v: &str)
    ensures
        texts_view(final(parts)@) == texts_view(old(parts)@) + opt_part(prefix@, v@),
{
    let ghost before = parts@;
    if !v.is_empty() {
        let mut s = owned(prefix);
        push_str(&mut s, v);
        parts.push(s);
        assert(texts_view(parts@) =~= texts_view(before) + opt_part(prefix@, v@));
    } else {
        assert(texts_view(parts@) =~= texts_view(before) + opt_part(prefix@, v@));
    }
}

/// Joins the texts with `sep` between them.
pub fn join_texts(parts: &Vec<String>, sep: char) -> (r: String)
    ensures
        r@ == join_seq(texts_view(parts@), sep),
{
    let ghost view = texts_view(parts@);
    let mut out = String::new();
    let mut i: usize = 0;
    assert(view.take(0) =~= Seq::<Seq<char>>::empty());
    while i < parts.len()
        invariant
            i <= parts.len(),
            view == texts_view(parts@),
            out@ == join_seq(view.take(i as int), sep),
        decreases parts.len() - i,
    {
        let ghost before = out@;
        if i > 0 {
            push_char(&mut out, sep);
        }
        push_str(&mut out, parts[i].as_str());
        proof {
            let t = view.take(i + 1);
            assert(t.drop_last() =~= view.take(i as int));
            assert(t.last() == parts@[i as int]@);
            if i == 0 {
                assert(out@ =~= t[0]);
            } else {
                assert(out@ =~= join_seq(t.drop_last(), sep) + seq![sep] + t.last());
            }
        }
        i = i + 1;
    }
    assert(view.take(parts.len() as int) =~= view);
    out
}

// ===================== deduplication key =====================

/// The deduplication key of `data` from `device_uuid`: lower-case hex SHA-256 of
/// `"<device_uuid>|<data>"`.
pub fn compute_dedup_key(device_uuid: &str, data: &str) -> (r: String)
    ensures
        r@ == hex_of(sha256_of(encode_utf8(device_uuid@ + seq!['|'] + data@))),
        r@.len() == 64,
{
    let mut input = owned(device_uuid);
    push_char(&mut input, '|');
    push_str(&mut input, data);
    assert(input@ =~= device_uuid@ + seq!['|'] + data@);
    sha256_hex(input.as_str())
}

// ===================== feature id =====================

/// The object held by member `k`, when it is an object.
pub open spec fn obj_member(root: Seq<(Seq<char>, LeafView)>, k: Seq<char>) -> Option<Seq<(Seq<char>, LeafView)>> {
    match vmember(root, k) {
        Some(LeafView::Raw(t)) => json_object_of(t),
        _ => None,
    }
}

/// The key parts that the `param_v2_raw` JSON gives: the chat title, else the base title
/// and content, else the highlight title (each only when not empty).
pub open spec fn param_parts(param: Seq<char>) -> Seq<Seq<char>> {
    if param.len() == 0 {
        Seq::empty()
    } else {
        match json_object_of(param) {
            None => Seq::empty(),
            Some(root) => match obj_member(root, "chatInfo"@) {
                Some(ci) => opt_part("chat:"@, or_empty(vstr(ci, "title"@))),
                None => match obj_member(root, "baseInfo"@) {
                    Some(bi) => opt_part("baseT:"@, or_empty(vstr(bi, "title"@))) + opt_part(
                        "baseC:"@,
                        or_empty(vstr(bi, "content"@)),
                    ),
                    None => match obj_member(root, "highlightInfo"@) {
                        Some(hi) => opt_part("hi:"@, or_empty(vstr(hi, "title"@))),
                        None => Seq::empty(),
                    },
                },
            },
        }
    }
}

/// All key parts of a feature: the package, the parts from `param_v2_raw`, the title and
/// text when `param_v2_raw` gave none, and the instance id.
pub open spec fn feature_parts(pkg: Seq<char>, param: Seq<char>, title: Seq<char>, text: Seq<char>, iid: Seq<char>) -> Seq<Seq<char>> {
    let p = seq![pkg] + param_parts(param);
    let q = if p.len() <= 1 {
        p + opt_part("t:"@, title) + opt_part("c:"@, text)
    } else {
        p
    };
    q + opt_part("id:"@, iid)
}

/// The object held by member `k` of `root`, when it is an object.
fn object_member(root: &Vec<(String, JsonLeaf)>, k: &str) -> (r: Option<Vec<(String, JsonLeaf)>>)
    ensures
        match r {
            Some(o) => obj_member(members_view(root@), k@) == Some(members_view(o@)),
            None => obj_member(members_view(root@), k@) is None,
        },
{
    match get_member(root, k) {
        Some(JsonLeaf::Raw(t)) => parse_object(t.as_str()),
        _ => None,
    }
}

/// The string member `k` of `o`, or empty.
fn str_or_empty(o: &Vec<(String, JsonLeaf)>, k: &str) -> (r: String)
    ensures
        r@ == or_empty(vstr(members_view(o@), k@)),
{
    match get_str(o, k) {
        Some(s) => s,
        None => String::new(),
    }
}

/// Appends the key parts of `param_v2_raw`.
fn push_param_parts(parts: &mut Vec<String>, param: &str)
    ensures
        texts_view(final(parts)@) == texts_view(old(parts)@) + param_parts(param@),
{
    let ghost before = texts_view(parts@);
    if param.is_empty() {
        assert(before + param_parts(param@) =~= before);
        return;
    }
    let root = match parse_object(param) {
        Some(r) => r,
        None => {
            assert(before + param_parts(param@) =~= before);
            return;
        },
    };
    match object_member(&root, "chatInfo") {
        Some(ci) => {
            let t = str_or_empty(&ci, "title");
            push_opt_part(parts, "chat:", t.as_str());
        },
        None => match object_member(&root, "baseInfo") {
            Some(bi) => {
                let bt = str_or_empty(&bi, "title");
                let bc = str_or_empty(&bi, "content");
                push_opt_part(parts, "baseT:", bt.as_str());
                push_opt_part(parts, "baseC:", bc.as_str());
                assert(texts_view(parts@) =~= before + param_parts(param@));
            },
            None => match object_member(&root, "highlightInfo") {
                Some(hi) => {
                    let ht = str_or_empty(&hi, "title");
                    push_opt_part(parts, "hi:", ht.as_str());
                },
                None => {
                    assert(before + param_parts(param@) =~= before);
                },
            },
        },
    }
}

/// The key parts of a feature, in order.
pub fn feature_key_parts(pkg: &str, param: &str, title: &str, text: &str, iid: &str) -> (r: Vec<String>)
    ensures
        texts_view(r@) == feature_parts(pkg@, param@, title@, text@, iid@),
{
    let mut parts: Vec<String> = Vec::new();
    parts.push(owned(pkg));
    assert(texts_view(parts@) =~= seq![pkg@]);
    push_param_parts(&mut parts, param);
    if parts.len() <= 1 {
        push_opt_part(&mut parts, "t:", title);
        push_opt_part(&mut parts, "c:", text);
    }
    push_opt_part(&mut parts, "id:", iid);
    parts
}

/// The feature id of a Super Island notification: lower-case hex SHA-1 of its key parts
/// joined with `|`.
pub fn compute_feature_id(pkg: &str, param: &str, title: &str, text: &str, iid: &str) -> (r: String)
    ensures
        r@ == hex_of(sha1_of(encode_utf8(join_seq(feature_parts(pkg@, param@, title@, text@, iid@), '|')))),
        r@.len() == 40,
{
    let parts = feature_key_parts(pkg, param, title, text, iid);
    let raw = join_texts(&parts, '|');
    sha1_hex(raw.as_str())
}

/// The non-empty texts among `pkg`, `title`, `text`, in that order.
pub open spec fn simple_parts(pkg: Seq<char>, title: Seq<char>, text: Seq<char>) -> Seq<Seq<char>> {
    opt_part(Seq::empty(), pkg) + opt_part(Seq::empty(), title) + opt_part(Seq::empty(), text)
}

/// The readable feature id: the non-empty of package, title and text joined with `|`.
pub fn compute_feature_id_simple(pkg: &str, title: &str, text: &str) -> (r: String)
    ensures
        r@ == join_seq(simple_parts(pkg@, title@, text@), '|'),
{
    let mut parts: Vec<String> = Vec::new();
    assert(texts_view(parts@) =~= Seq::<Seq<char>>::empty());
    push_opt_part(&mut parts, "", pkg);
    push_opt_part(&mut parts, "", title);
    push_opt_part(&mut parts, "", text);
    proof {
        reveal_strlit("");
        assert(Seq::<Seq<char>>::empty() + opt_part(""@, pkg@) + opt_part(""@, title@) + opt_part(""@, text@)
            =~= simple_parts(pkg@, title@, text@));
    }
    join_texts(&parts, '|')
}

// ===================== credentials =====================

/// An ASCII letter or digit.
pub open spec fn is_ascii_alnum(c: char) -> bool {
    ('0' <= c && c <= '9') || ('a' <= c && c <= 'z') || ('A' <= c && c <= 'Z')
}

/// The ASCII letters and digits of `s`, in order.
pub open spec fn alnum_only(s: Seq<char>) -> Seq<char> {
    s.filter(|c: char| is_ascii_alnum(c))
}

/// The first `n` characters of `s` (all of them when it is shorter).
pub open spec fn prefix_of(s: Seq<char>, n: int) -> Seq<char> {
    if s.len() <= n {
        s
    } else {
        s.take(n)
    }
}

/// The FTP user name derived from a key digest: `ftp_` and the first 16 letters and digits
/// of the base64 of its first 8 bytes.
pub open spec fn ftp_username(digest: Seq<u8>) -> Seq<char> {
    "ftp_"@ + prefix_of(alnum_only(base64_of(digest.take(8))), 16)
}

/// The FTP password derived from a key digest: the letters and digits of its base64.
pub open spec fn ftp_password(digest: Seq<u8>) -> Seq<char> {
    alnum_only(base64_of(digest))
}

/// The credentials object for a key digest.
pub open spec fn ftp_credentials_json(digest: Seq<u8>) -> Seq<char> {
    object_text(seq![("password"@, LeafView::Str(ftp_password(digest))), ("username"@, LeafView::Str(ftp_username(digest)))])
}

/// The letters and digits of `s`.
fn keep_alnum(s: &str) -> (r: String)
    ensures
        r@ == alnum_only(s@),
{
    let cs = crate::text::chars_of(s);
    let mut out: Vec<char> = Vec::new();
    let mut i: usize = 0;
    let ghost f = |c: char| is_ascii_alnum(c);
    assert(cs@.take(0).filter(f) =~= Seq::<char>::empty()) by {
        reveal(Seq::filter);
    }
    while i < cs.len()
        invariant
            i <= cs.len(),
            cs@ == s@,
            f == (|c: char| is_ascii_alnum(c)),
            out@ == cs@.take(i as int).filter(f),
        decreases cs.len() - i,
    {
        let c = cs[i];
        proof {
            assert(cs@.take(i + 1) =~= cs@.take(i as int).push(c));
            cs@.take(i as int).lemma_filter_push(c, f);
        }
        if ('0' <= c && c <= '9') || ('a' <= c && c <= 'z') || ('A' <= c && c <= 'Z') {
            out.push(c);
        }
        i = i + 1;
    }
    assert(cs@.take(cs.len() as int) =~= cs@);
    string_of(out.as_slice())
}

/// The first `n` characters of `s`.
fn take_chars(s: &str, n: usize) -> (r: String)
    ensures
        r@ == prefix_of(s@, n as int),
{
    let cs = crate::text::chars_of(s);
    if cs.len() <= n {
        string_of(cs.as_slice())
    } else {
        let t = crate::text::sub_chars(cs.as_slice(), 0, n);
        string_of(t.as_slice())
    }
}

/// FTP credentials from a base64 shared secret: user name and password derived from the
/// SHA-256 of the decoded secret, as `{"password":..,"username":..}`. When the secret is not
/// base64 the answer is `{"username":"","password":""}`.
pub fn derive_ftp_credentials(shared_secret_b64: &str) -> (r: String)
    ensures
        match base64_decoded(shared_secret_b64@) {
            None => r@ == "{\"username\":\"\",\"password\":\"\"}"@,
            Some(bytes) => r@ == ftp_credentials_json(sha256_of(bytes)),
        },
{
    let secret = match b64_decode(shared_secret_b64) {
        Ok(b) => b,
        Err(_) => return owned("{\"username\":\"\",\"password\":\"\"}"),
    };
    let digest = sha256(secret.as_slice());
    let head = vstd::slice::slice_subrange(digest.as_slice(), 0, 8);
    assert(head@ =~= digest@.take(8));
    let user_b64 = b64_encode_bytes(head);
    let user_alnum = keep_alnum(user_b64.as_str());
    let mut username = owned("ftp_");
    let first = take_chars(user_alnum.as_str(), 16);
    push_str(&mut username, first.as_str());
    let pass_b64 = b64_encode_bytes(digest.as_slice());
    let password = keep_alnum(pass_b64.as_str());
    let mut ms: Vec<(String, JsonLeaf)> = Vec::new();
    ms.push((owned("password"), JsonLeaf::Str(password)));
    ms.push((owned("username"), JsonLeaf::Str(username)));
    assert(members_view(ms@) =~= seq![("password"@, LeafView::Str(ftp_password(digest@))), ("username"@, LeafView::Str(ftp_username(digest@)))]);
    write_object(&ms)
}

/// The password hash: base64 of the MD5 of the UTF-8 bytes of `password`.
pub fn derive_password_hash(password: &str) -> (r: String)
    ensures
        r@ == base64_of(md5_of(encode_utf8(password@))),
{
    let d = md5(password.as_bytes());
    b64_encode_bytes(d.as_slice())
}

/// The characters a random password is drawn from.
pub open spec fn password_alphabet() -> Seq<char> {
    "ABCDEFGHIJKLMNOPQRSTUVWXYZabcdefghijklmnopqrstuvwxyz0123456789!@#$%^&*"@
}

/// Wraps `rand::Rng::gen_range(0..n)` on `rand::thread_rng()`: a uniformly drawn index below `n`.
#[verifier::external_body]
fn random_below(n: usize) -> (r: usize)
    requires
        n > 0,
    ensures
        r < n,
{
    rand::thread_rng().gen_range(0..n)
}

/// A random password of 12 characters drawn from `password_alphabet()`.
pub fn generate_random_password() -> (r: String)
    ensures
        r@.len() == 12,
        forall|i: int| 0 <= i < 12 ==> password_alphabet().contains(#[trigger] r@[i]),
{
    let alphabet = crate::text::chars_of("ABCDEFGHIJKLMNOPQRSTUVWXYZabcdefghijklmnopqrstuvwxyz0123456789!@#$%^&*");
    proof {
        reveal_strlit("ABCDEFGHIJKLMNOPQRSTUVWXYZabcdefghijklmnopqrstuvwxyz0123456789!@#$%^&*");
    }
    let mut out: Vec<char> = Vec::new();
    let mut i: usize = 0;
    while i < 12
        invariant
            i <= 12,
            out@.len() == i,
            alphabet@ == password_alphabet(),
            alphabet@.len() == 70,
            forall|j: int| 0 <= j < i ==> password_alphabet().contains(#[trigger] out@[j]),
        decreases 12 - i,
    {
        let idx = random_below(alphabet.len());
        let c = alphabet[idx];
        assert(password_alphabet()[idx as int] == c);
        out.push(c);
        i = i + 1;
    }
    string_of(out.as_slice())
}

/// A random pairing code: six decimal digits.
pub fn generate_pairing_code() -> (r: String)
    ensures
        r@.len() == 6,
        forall|i: int| 0 <= i < 6 ==> '0' <= #[trigger] r@[i] <= '9',
{
    let digits = crate::text::chars_of("0123456789");
    proof {
        reveal_strlit("0123456789");
        assert(digits@ =~= seq!['0', '1', '2', '3', '4', '5', '6', '7', '8', '9']);
        assert(forall|j: int| 0 <= j < 10 ==> '0' <= #[trigger] digits@[j] <= '9');
    }
    let mut out: Vec<char> = Vec::new();
    let mut i: usize = 0;
    while i < 6
        invariant
            i <= 6,
            out@.len() == i,
            digits@ == "0123456789"@,
            digits@.len() == 10,
            forall|j: int| 0 <= j < 10 ==> '0' <= #[trigger] digits@[j] <= '9',
            forall|j: int| 0 <= j < i ==> '0' <= #[trigger] out@[j] <= '9',
        decreases 6 - i,
    {
        let idx = random_below(digits.len());
        let c = digits[idx];
        assert(digits@[idx as int] == c);
        out.push(c);
        i = i + 1;
    }
    string_of(out.as_slice())
}

} // verus!
