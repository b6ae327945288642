//! The persisted snapshot document: a JSON array holding one object per
//! observed identity, under fixed wire keys. The codec is the
//! store's own logic: encoding is specified exactly and decoding
//! inverts it, so a saved snapshot loads back unchanged.

use vstd::prelude::*;
use vstd::string::{StrSliceExecFns, StringExecFns};

use crate::identity::{ExtensionIdentity, IdentityModel};

verus! {

/// The escaped form of one character: a double quote and a backslash
/// stand behind a backslash; every other character stands as it is.
pub open spec fn esc_char(c: char) -> Seq<char> {
    if c == '"' || c == '\\' {
        seq!['\\', c]
    } else {
        seq![c]
    }
}

/// The escaped form of a text.
pub open spec fn json_escape(v: Seq<char>) -> Seq<char>
    decreases v.len(),
{
    if v.len() == 0 {
        Seq::empty()
    } else {
        esc_char(v.first()) + json_escape(v.drop_first())
    }
}

/// An encoded string value.
pub open spec fn enc_str(v: Seq<char>) -> Seq<char> {
    seq!['"'] + json_escape(v) + seq!['"']
}

/// An encoded optional string: `null` when absent.
pub open spec fn enc_opt(o: Option<Seq<char>>) -> Seq<char> {
    match o {
        None => "null"@,
        Some(v) => enc_str(v),
    }
}

/// One encoded key/value pair.
pub open spec fn enc_pair(p: (Seq<char>, Option<Seq<char>>)) -> Seq<char> {
    enc_str(p.0) + seq![':'] + enc_opt(p.1)
}

/// Encoded pairs, comma-separated.
pub open spec fn enc_pairs(fs: Seq<(Seq<char>, Option<Seq<char>>)>) -> Seq<char>
    decreases fs.len(),
{
    if fs.len() == 0 {
        Seq::empty()
    } else if fs.len() == 1 {
        enc_pair(fs[0])
    } else {
        enc_pair(fs.first()) + seq![','] + enc_pairs(fs.drop_first())
    }
}

/// The wire fields of an identity, under the persisted document's key
/// names, in encoding order.
pub open spec fn ident_fields(m: IdentityModel) -> Seq<(Seq<char>, Option<Seq<char>>)> {
    seq![
        ("id"@, m.os_id),
        ("sysext_id"@, m.sysext_id),
        ("sysext_version_id"@, m.version_id),
        ("sysext_scope"@, m.scope),
        ("architecture"@, m.architecture),
        ("path"@, m.storage_path),
        ("name"@, Some(m.name)),
    ]
}

/// One encoded identity object.
pub open spec fn enc_ident(m: IdentityModel) -> Seq<char> {
    seq!['{'] + enc_pairs(ident_fields(m)) + seq!['}']
}

/// Encoded identities, comma-separated.
pub open spec fn enc_items(s: Seq<IdentityModel>) -> Seq<char>
    decreases s.len(),
{
    if s.len() == 0 {
        Seq::empty()
    } else if s.len() == 1 {
        enc_ident(s[0])
    } else {
        enc_ident(s.first()) + seq![','] + enc_items(s.drop_first())
    }
}

/// The whole snapshot document.
pub open spec fn spec_encode(s: Seq<IdentityModel>) -> Seq<char> {
    seq!['['] + enc_items(s) + seq![']']
}

/// Appending one identity at the back extends the encoded list by a
/// separator and the identity's encoding.
proof fn lemma_enc_items_push(s: Seq<IdentityModel>, x: IdentityModel)
    ensures
        s.len() == 0 ==> enc_items(s.push(x)) == enc_ident(x),
        s.len() > 0 ==> enc_items(s.push(x)) == enc_items(s) + seq![','] + enc_ident(x),
    decreases s.len(),
{
    if s.len() == 0 {
        assert(s.push(x) =~= seq![x]);
    } else {
        lemma_enc_items_push(s.drop_first(), x);
        assert(s.push(x).drop_first() =~= s.drop_first().push(x));
        assert(s.push(x).first() == s.first());
        assert(enc_items(s.push(x)) =~= enc_items(s) + seq![','] + enc_ident(x));
    }
}

/// Escaping one more character at the back extends the escaped text by
/// that character's escaped form.
proof fn lemma_json_escape_push(s: Seq<char>, c: char)
    ensures
        json_escape(s.push(c)) == json_escape(s) + esc_char(c),
    decreases s.len(),
{
    if s.len() == 0 {
        reveal_with_fuel(json_escape, 2);
        assert(s.push(c) =~= seq![c]);
        assert(seq![c].drop_first() =~= Seq::<char>::empty());
        assert(seq![c].first() == c);
        assert(json_escape(s) =~= Seq::<char>::empty());
        assert(json_escape(s.push(c)) =~= esc_char(c) + json_escape(Seq::<char>::empty()));
        assert(json_escape(s.push(c)) =~= json_escape(s) + esc_char(c));
    } else {
        lemma_json_escape_push(s.drop_first(), c);
        assert(s.push(c).drop_first() =~= s.drop_first().push(c));
        assert(s.push(c).first() == s.first());
        assert(json_escape(s.push(c)) =~= json_escape(s) + esc_char(c));
    }
}

/// The escaped form of a text, character by character.
fn escape_chars(v: &Vec<char>) -> (r: Vec<char>)
    ensures
        r@ == json_escape(v@),
{
    let n = v.len();
    let mut out: Vec<char> = Vec::new();
    let mut i: usize = 0;
    proof {
        assert(v@.take(0) =~= Seq::<char>::empty());
        assert(out@ =~= json_escape(v@.take(0)));
    }
    while i < n
        invariant
            i <= n,
            n == v@.len(),
            out@ == json_escape(v@.take(i as int)),
        decreases n - i,
    {
        let c = v[i];
        let ghost out_before = out@;
        if c == '"' || c == '\\' {
            out.push('\\');
            out.push(c);
        } else {
            out.push(c);
        }
        proof {
            lemma_json_escape_push(v@.take(i as int), c);
            assert(v@.take(i as int).push(c) =~= v@.take(i as int + 1));
            assert(out@ =~= out_before + esc_char(c));
        }
        i += 1;
    }
    proof {
        assert(v@.take(n as int) =~= v@);
    }
    out
}

/// Appends an encoded string value, escaping quotes and backslashes.
fn append_enc_str(out: &mut String, v: &str)
    ensures
        final(out)@ == old(out)@ + enc_str(v@),
{
    let escaped = chars_to_string(&escape_chars(&to_char_vec(v)));
    out.append("\"");
    out.append(escaped.as_str());
    out.append("\"");
    proof {
        reveal_strlit("\"");
        assert(out@ =~= old(out)@ + enc_str(v@));
    }
}

/// Appends an encoded optional string.
fn append_enc_opt(out: &mut String, o: &Option<String>)
    ensures
        final(out)@ == old(out)@ + enc_opt(o.deep_view()),
{
    match o {
        None => {
            out.append("null");
        },
        Some(v) => {
            append_enc_str(out, v.as_str());
        },
    }
}

/// Appends one encoded key/value pair.
fn append_enc_pair(out: &mut String, key: &str, o: &Option<String>)
    ensures
        final(out)@ == old(out)@ + enc_pair((key@, o.deep_view())),
{
    append_enc_str(out, key);
    out.append(":");
    append_enc_opt(out, o);
    proof {
        reveal_strlit(":");
        assert(out@ =~= old(out)@ + enc_pair((key@, o.deep_view())));
    }
}

/// Appends one encoded identity object.
#[verifier::rlimit(100)]
fn append_enc_ident(out: &mut String, id: &ExtensionIdentity)
    ensures
        final(out)@ == old(out)@ + enc_ident(id.deep_view()),
{
    out.append("{");
    append_enc_pair(out, "id", &id.os_id);
    out.append(",");
    append_enc_pair(out, "sysext_id", &id.sysext_id);
    out.append(",");
    append_enc_pair(out, "sysext_version_id", &id.version_id);
    out.append(",");
    append_enc_pair(out, "sysext_scope", &id.scope);
    out.append(",");
    append_enc_pair(out, "architecture", &id.architecture);
    out.append(",");
    append_enc_pair(out, "path", &id.storage_path);
    out.append(",");
    append_enc_str(out, "name");
    out.append(":");
    append_enc_str(out, id.name.as_str());
    out.append("}");
    proof {
        reveal_strlit("{");
        reveal_strlit("}");
        reveal_strlit(",");
        reveal_strlit(":");
        reveal_with_fuel(enc_pairs, 8);
        let fs = ident_fields(id.deep_view());
        assert(fs.drop_first() =~= seq![
            ("sysext_id"@, id.deep_view().sysext_id),
            ("sysext_version_id"@, id.deep_view().version_id),
            ("sysext_scope"@, id.deep_view().scope),
            ("architecture"@, id.deep_view().architecture),
            ("path"@, id.deep_view().storage_path),
            ("name"@, Some(id.deep_view().name)),
        ]);
        assert(fs.drop_first().drop_first() =~= seq![
            ("sysext_version_id"@, id.deep_view().version_id),
            ("sysext_scope"@, id.deep_view().scope),
            ("architecture"@, id.deep_view().architecture),
            ("path"@, id.deep_view().storage_path),
            ("name"@, Some(id.deep_view().name)),
        ]);
        assert(fs.drop_first().drop_first().drop_first() =~= seq![
            ("sysext_scope"@, id.deep_view().scope),
            ("architecture"@, id.deep_view().architecture),
            ("path"@, id.deep_view().storage_path),
            ("name"@, Some(id.deep_view().name)),
        ]);
        assert(fs.drop_first().drop_first().drop_first().drop_first() =~= seq![
            ("architecture"@, id.deep_view().architecture),
            ("path"@, id.deep_view().storage_path),
            ("name"@, Some(id.deep_view().name)),
        ]);
        assert(fs.drop_first().drop_first().drop_first().drop_first().drop_first() =~= seq![
            ("path"@, id.deep_view().storage_path),
            ("name"@, Some(id.deep_view().name)),
        ]);
        assert(fs.drop_first().drop_first().drop_first().drop_first().drop_first().drop_first()
            =~= seq![("name"@, Some(id.deep_view().name))]);
        assert(out@ =~= old(out)@ + enc_ident(id.deep_view()));
    }
}

/// Encodes a snapshot as its persisted document.
pub fn encode_snapshot(snapshot: &Vec<ExtensionIdentity>) -> (r: String)
    ensures
        r@ == spec_encode(snapshot.deep_view()),
{
    let ghost sm = snapshot.deep_view();
    let mut out = String::from_str("[");
    proof {
        reveal_strlit("[");
        assert(out@ =~= seq!['[']);
        assert(sm.take(0) =~= Seq::<IdentityModel>::empty());
    }
    let n = snapshot.len();
    let mut i: usize = 0;
    while i < n
        invariant
            n == snapshot@.len(),
            i <= n,
            sm == snapshot.deep_view(),
            out@ == seq!['['] + enc_items(sm.take(i as int)),
        decreases n - i,
    {
        if i > 0 {
            out.append(",");
        }
        append_enc_ident(&mut out, &snapshot[i]);
        proof {
            reveal_strlit(",");
            lemma_enc_items_push(sm.take(i as int), sm[i as int]);
            assert(sm.take(i as int).push(sm[i as int]) =~= sm.take(i as int + 1));
            assert(out@ =~= seq!['['] + enc_items(sm.take(i as int + 1)));
        }
        i += 1;
    }
    out.append("]");
    proof {
        reveal_strlit("]");
        assert(sm.take(n as int) =~= sm);
        assert(out@ =~= spec_encode(sm));
    }
    out
}

/// Parses a string body up to its closing quote, undoing the escapes:
/// the value and what follows the quote.
pub open spec fn sp_str_body(t: Seq<char>) -> Option<(Seq<char>, Seq<char>)>
    decreases t.len(),
{
    if t.len() == 0 {
        None
    } else if t.first() == '"' {
        Some((Seq::empty(), t.drop_first()))
    } else if t.first() == '\\' {
        if t.len() >= 2 && (t[1] == '"' || t[1] == '\\') {
            match sp_str_body(t.skip(2)) {
                Some(p) => Some((seq![t[1]] + p.0, p.1)),
                None => None,
            }
        } else {
            None
        }
    } else {
        match sp_str_body(t.drop_first()) {
            Some(p) => Some((seq![t.first()] + p.0, p.1)),
            None => None,
        }
    }
}

/// Parses a quoted string.
pub open spec fn sp_string(t: Seq<char>) -> Option<(Seq<char>, Seq<char>)> {
    if t.len() >= 1 && t.first() == '"' {
        sp_str_body(t.drop_first())
    } else {
        None
    }
}

/// Parses a string or `null`.
pub open spec fn sp_opt(t: Seq<char>) -> Option<(Option<Seq<char>>, Seq<char>)> {
    if t.len() >= 4 && t.take(4) == "null"@ {
        Some((None, t.skip(4)))
    } else {
        match sp_string(t) {
            Some(p) => Some((Some(p.0), p.1)),
            None => None,
        }
    }
}

/// Parses one `"key":value` pair.
pub open spec fn sp_pair(t: Seq<char>) -> Option<((Seq<char>, Option<Seq<char>>), Seq<char>)> {
    match sp_string(t) {
        Some(k) => {
            if k.1.len() >= 1 && k.1.first() == ':' {
                match sp_opt(k.1.drop_first()) {
                    Some(v) => Some(((k.0, v.0), v.1)),
                    None => None,
                }
            } else {
                None
            }
        },
        None => None,
    }
}

/// Parses comma-separated pairs. The fuel only bounds the recursion:
/// any fuel at least the number of pairs gives the same answer.
pub open spec fn sp_pairs(t: Seq<char>, fuel: nat) -> Option<
    (Seq<(Seq<char>, Option<Seq<char>>)>, Seq<char>),
>
    decreases fuel,
{
    if fuel == 0 {
        None
    } else {
        match sp_pair(t) {
            Some(p) => {
                if p.1.len() >= 1 && p.1.first() == ',' {
                    match sp_pairs(p.1.drop_first(), (fuel - 1) as nat) {
                        Some(q) => Some((seq![p.0] + q.0, q.1)),
                        None => None,
                    }
                } else {
                    Some((seq![p.0], p.1))
                }
            },
            None => None,
        }
    }
}

/// Parses one object: its pairs between braces.
pub open spec fn sp_object(t: Seq<char>) -> Option<
    (Seq<(Seq<char>, Option<Seq<char>>)>, Seq<char>),
> {
    if t.len() >= 1 && t.first() == '{' {
        match sp_pairs(t.drop_first(), (t.len() - 1) as nat) {
            Some(p) => {
                if p.1.len() >= 1 && p.1.first() == '}' {
                    Some((p.0, p.1.drop_first()))
                } else {
                    None
                }
            },
            None => None,
        }
    } else {
        None
    }
}

/// The first value under a key, if the key occurs.
pub open spec fn field_lookup(fs: Seq<(Seq<char>, Option<Seq<char>>)>, key: Seq<char>) -> Option<
    Option<Seq<char>>,
>
    decreases fs.len(),
{
    if fs.len() == 0 {
        None
    } else if fs.first().0 == key {
        Some(fs.first().1)
    } else {
        field_lookup(fs.drop_first(), key)
    }
}

/// A key's value with an absent key and a null value flattened: both
/// stand for an absent field.
pub open spec fn opt_field(fs: Seq<(Seq<char>, Option<Seq<char>>)>, key: Seq<char>) -> Option<
    Seq<char>,
> {
    match field_lookup(fs, key) {
        Some(v) => v,
        None => None,
    }
}

/// The identity a parsed object describes: absent keys map to `None`
/// and unknown keys are ignored; only a missing or null name is
/// refused.
pub open spec fn model_of_fields(fs: Seq<(Seq<char>, Option<Seq<char>>)>) -> Option<
    IdentityModel,
> {
    match field_lookup(fs, "name"@) {
        Some(Some(n)) => Some(
            IdentityModel {
                os_id: opt_field(fs, "id"@),
                sysext_id: opt_field(fs, "sysext_id"@),
                version_id: opt_field(fs, "sysext_version_id"@),
                scope: opt_field(fs, "sysext_scope"@),
                architecture: opt_field(fs, "architecture"@),
                name: n,
                storage_path: opt_field(fs, "path"@),
            },
        ),
        _ => None,
    }
}

/// Parses one identity object.
pub open spec fn sp_ident(t: Seq<char>) -> Option<(IdentityModel, Seq<char>)> {
    match sp_object(t) {
        Some(p) => match model_of_fields(p.0) {
            Some(m) => Some((m, p.1)),
            None => None,
        },
        None => None,
    }
}

/// Parses comma-separated identity objects; the fuel only bounds the
/// recursion.
pub open spec fn sp_items(t: Seq<char>, fuel: nat) -> Option<(Seq<IdentityModel>, Seq<char>)>
    decreases fuel,
{
    if fuel == 0 {
        None
    } else {
        match sp_ident(t) {
            Some(p) => {
                if p.1.len() >= 1 && p.1.first() == ',' {
                    match sp_items(p.1.drop_first(), (fuel - 1) as nat) {
                        Some(q) => Some((seq![p.0] + q.0, q.1)),
                        None => None,
                    }
                } else {
                    Some((seq![p.0], p.1))
                }
            },
            None => None,
        }
    }
}

/// Parses a whole snapshot document: the bracketed identity list, with
/// nothing after it.
pub open spec fn sp_decode(t: Seq<char>) -> Option<Seq<IdentityModel>> {
    if t.len() >= 2 && t.first() == '[' {
        if t[1] == ']' {
            if t.len() == 2 {
                Some(Seq::empty())
            } else {
                None
            }
        } else {
            match sp_items(t.drop_first(), (t.len() - 1) as nat) {
                Some(p) => {
                    if p.1 == seq![']'] {
                        Some(p.0)
                    } else {
                        None
                    }
                },
                None => None,
            }
        }
    } else {
        None
    }
}

/// An escaped string body followed by its closing quote parses back to
/// the text it came from.
proof fn lemma_rt_str_body(v: Seq<char>, rest: Seq<char>)
    ensures
        sp_str_body(json_escape(v) + (seq!['"'] + rest)) == Some((v, rest)),
    decreases v.len(),
{
    let t = json_escape(v) + (seq!['"'] + rest);
    if v.len() == 0 {
        assert(t =~= seq!['"'] + rest);
        assert(t.drop_first() =~= rest);
        assert(Seq::<char>::empty() =~= v);
    } else {
        let c = v.first();
        lemma_rt_str_body(v.drop_first(), rest);
        assert(t =~= esc_char(c) + (json_escape(v.drop_first()) + (seq!['"'] + rest)));
        if c == '"' || c == '\\' {
            assert(t[0] == '\\');
            assert(t[1] == c);
            assert(t.skip(2) =~= json_escape(v.drop_first()) + (seq!['"'] + rest));
            assert(seq![t[1]] + v.drop_first() =~= v);
        } else {
            assert(t.first() == c);
            assert(t.drop_first() =~= json_escape(v.drop_first()) + (seq!['"'] + rest));
            assert(seq![t.first()] + v.drop_first() =~= v);
        }
    }
}

/// An encoded string parses back to itself.
proof fn lemma_rt_string(v: Seq<char>, rest: Seq<char>)
    ensures
        sp_string(enc_str(v) + rest) == Some((v, rest)),
{
    let t = enc_str(v) + rest;
    assert(t.first() == '"');
    assert(t.drop_first() =~= json_escape(v) + (seq!['"'] + rest));
    lemma_rt_str_body(v, rest);
}

/// An encoded optional string parses back to itself.
proof fn lemma_rt_opt(o: Option<Seq<char>>, rest: Seq<char>)
    ensures
        sp_opt(enc_opt(o) + rest) == Some((o, rest)),
{
    reveal_strlit("null");
    let t = enc_opt(o) + rest;
    match o {
        None => {
            assert(t.take(4) =~= "null"@);
            assert(t.skip(4) =~= rest);
        },
        Some(v) => {
            assert(t.first() == '"');
            assert("null"@[0] == 'n');
            if t.len() >= 4 && t.take(4) == "null"@ {
                assert(t.take(4)[0] == t[0]);
                assert(false);
            }
            lemma_rt_string(v, rest);
        },
    }
}

/// An encoded pair parses back to itself.
proof fn lemma_rt_pair(p: (Seq<char>, Option<Seq<char>>), rest: Seq<char>)
    ensures
        sp_pair(enc_pair(p) + rest) == Some((p, rest)),
{
    let t = enc_pair(p) + rest;
    let r1 = seq![':'] + (enc_opt(p.1) + rest);
    assert(t =~= enc_str(p.0) + r1);
    lemma_rt_string(p.0, r1);
    assert(r1.first() == ':');
    assert(r1.drop_first() =~= enc_opt(p.1) + rest);
    lemma_rt_opt(p.1, rest);
}

/// An encoding holds at least one character per pair.
proof fn lemma_enc_pairs_len(fs: Seq<(Seq<char>, Option<Seq<char>>)>)
    ensures
        enc_pairs(fs).len() >= fs.len(),
    decreases fs.len(),
{
    if fs.len() <= 1 {
    } else {
        lemma_enc_pairs_len(fs.drop_first());
    }
}

/// Encoded pairs parse back to themselves, under any fuel at least
/// their number.
proof fn lemma_rt_pairs(fs: Seq<(Seq<char>, Option<Seq<char>>)>, rest: Seq<char>, fuel: nat)
    requires
        fs.len() >= 1,
        fuel >= fs.len(),
        rest.len() >= 1,
        rest.first() != ',',
    ensures
        sp_pairs(enc_pairs(fs) + rest, fuel) == Some((fs, rest)),
    decreases fs.len(),
{
    if fs.len() == 1 {
        lemma_rt_pair(fs[0], rest);
        assert(enc_pairs(fs) + rest =~= enc_pair(fs[0]) + rest);
        assert(seq![fs[0]] =~= fs);
    } else {
        let tail = seq![','] + (enc_pairs(fs.drop_first()) + rest);
        assert(enc_pairs(fs) + rest =~= enc_pair(fs.first()) + tail);
        lemma_rt_pair(fs.first(), tail);
        assert(tail.first() == ',');
        assert(tail.drop_first() =~= enc_pairs(fs.drop_first()) + rest);
        lemma_rt_pairs(fs.drop_first(), rest, (fuel - 1) as nat);
        assert(seq![fs.first()] + fs.drop_first() =~= fs);
    }
}

/// Looking the wire fields of an identity up recovers the identity.
#[verifier::rlimit(100)]
proof fn lemma_model_of_fields(m: IdentityModel)
    ensures
        model_of_fields(ident_fields(m)) == Some(m),
{
    reveal_strlit("id");
    reveal_strlit("sysext_id");
    reveal_strlit("sysext_version_id");
    reveal_strlit("sysext_scope");
    reveal_strlit("architecture");
    reveal_strlit("path");
    reveal_strlit("name");
    reveal_with_fuel(field_lookup, 8);
    let fs = ident_fields(m);
    assert(fs.drop_first() =~= fs.skip(1));
    assert(fs.skip(1).drop_first() =~= fs.skip(2));
    assert(fs.skip(2).drop_first() =~= fs.skip(3));
    assert(fs.skip(3).drop_first() =~= fs.skip(4));
    assert(fs.skip(4).drop_first() =~= fs.skip(5));
    assert(fs.skip(5).drop_first() =~= fs.skip(6));
    assert(fs.skip(6).drop_first() =~= fs.skip(7));
    assert(fs.skip(7) =~= Seq::<(Seq<char>, Option<Seq<char>>)>::empty());
    assert("id"@.len() == 2);
    assert("sysext_id"@.len() == 9);
    assert("sysext_version_id"@.len() == 17);
    assert("sysext_scope"@.len() == 12);
    assert("architecture"@.len() == 12);
    assert("path"@.len() == 4);
    assert("name"@.len() == 4);
    assert("sysext_scope"@[0] != "architecture"@[0]);
    assert("path"@[0] != "name"@[0]);
    assert(field_lookup(fs, "id"@) == Some(m.os_id));
    assert(field_lookup(fs, "sysext_id"@) == Some(m.sysext_id));
    assert(field_lookup(fs, "sysext_version_id"@) == Some(m.version_id));
    assert(field_lookup(fs, "sysext_scope"@) == Some(m.scope));
    assert(field_lookup(fs, "architecture"@) == Some(m.architecture));
    assert(field_lookup(fs, "path"@) == Some(m.storage_path));
    assert(field_lookup(fs, "name"@) == Some(Some(m.name)));
}

/// An encoded identity object parses back to its wire fields and then
/// to the identity.
proof fn lemma_rt_ident(m: IdentityModel, rest: Seq<char>)
    ensures
        sp_ident(enc_ident(m) + rest) == Some((m, rest)),
{
    let t = enc_ident(m) + rest;
    let fs = ident_fields(m);
    let tail = seq!['}'] + rest;
    assert(t.first() == '{');
    assert(t.drop_first() =~= enc_pairs(fs) + tail);
    assert(tail.first() == '}');
    lemma_enc_pairs_len(fs);
    lemma_rt_pairs(fs, tail, (t.len() - 1) as nat);
    assert(tail.drop_first() =~= rest);
    lemma_model_of_fields(m);
}

/// An encoded identity is never empty.
proof fn lemma_enc_ident_len(m: IdentityModel)
    ensures
        enc_ident(m).len() >= 1,
{
}

/// An encoding holds at least one character per identity.
proof fn lemma_enc_items_len(s: Seq<IdentityModel>)
    ensures
        enc_items(s).len() >= s.len(),
    decreases s.len(),
{
    if s.len() <= 1 {
    } else {
        lemma_enc_items_len(s.drop_first());
    }
}

/// Encoded identities parse back to themselves, under any fuel at
/// least their number.
proof fn lemma_rt_items(s: Seq<IdentityModel>, rest: Seq<char>, fuel: nat)
    requires
        s.len() >= 1,
        fuel >= s.len(),
        rest.len() >= 1,
        rest.first() != ',',
    ensures
        sp_items(enc_items(s) + rest, fuel) == Some((s, rest)),
    decreases s.len(),
{
    if s.len() == 1 {
        lemma_rt_ident(s[0], rest);
        assert(enc_items(s) + rest =~= enc_ident(s[0]) + rest);
        assert(seq![s[0]] =~= s);
    } else {
        let tail = seq![','] + (enc_items(s.drop_first()) + rest);
        assert(enc_items(s) + rest =~= enc_ident(s.first()) + tail);
        lemma_rt_ident(s.first(), tail);
        assert(tail.first() == ',');
        assert(tail.drop_first() =~= enc_items(s.drop_first()) + rest);
        lemma_rt_items(s.drop_first(), rest, (fuel - 1) as nat);
        assert(seq![s.first()] + s.drop_first() =~= s);
    }
}

/// The characters of a string slice, as a vector.
fn to_char_vec(s: &str) -> (r: Vec<char>)
    ensures
        r@ == s@,
{
    let n = s.unicode_len();
    let mut v: Vec<char> = Vec::new();
    let mut i: usize = 0;
    while i < n
        invariant
            n == s@.len(),
            i <= n,
            v@ == s@.take(i as int),
        decreases n - i,
    {
        v.push(s.get_char(i));
        proof {
            assert(v@ =~= s@.take(i as int + 1));
        }
        i += 1;
    }
    proof {
        assert(s@.take(n as int) =~= s@);
    }
    v
}

/// Relies on String's `FromIterator<char>` (through `collect`): builds
/// the string holding exactly the given characters, in order.
#[verifier::external_body]
fn chars_to_string(v: &Vec<char>) -> (r: String)
    ensures
        r@ == v@,
{
    v.iter().collect()
}

/// Parses a quoted string out of the document at position `i`,
/// undoing the escapes.
fn parse_string(s: &Vec<char>, i: usize) -> (r: Option<(String, usize)>)
    requires
        i <= s@.len(),
    ensures
        match r {
            Some(p) => i <= p.1 <= s@.len() && sp_string(s@.skip(i as int)) == Some(
                (p.0@, s@.skip(p.1 as int)),
            ),
            None => sp_string(s@.skip(i as int)) is None,
        },
{
    let n = s.len();
    if i >= n || s[i] != '"' {
        return None;
    }
    let mut val: Vec<char> = Vec::new();
    let mut cur = i + 1;
    proof {
        assert(val@ + Seq::<char>::empty() =~= val@);
    }
    loop
        invariant
            i + 1 <= cur <= n,
            i < n,
            n == s@.len(),
            s@[i as int] == '"',
            (match sp_str_body(s@.skip(cur as int)) {
                Some(q) => sp_str_body(s@.skip(i as int + 1)) == Some((val@ + q.0, q.1)),
                None => sp_str_body(s@.skip(i as int + 1)) is None,
            }),
        decreases n - cur,
    {
        proof {
            assert(s@.skip(i as int).drop_first() =~= s@.skip(i as int + 1));
        }
        if cur >= n {
            proof {
                assert(s@.skip(cur as int).len() == 0);
            }
            return None;
        }
        let c = s[cur];
        if c == '"' {
            proof {
                assert(s@.skip(cur as int).first() == '"');
                assert(val@ + Seq::<char>::empty() =~= val@);
                assert(s@.skip(cur as int).drop_first() =~= s@.skip(cur as int + 1));
            }
            let value = chars_to_string(&val);
            return Some((value, cur + 1));
        } else if c == '\\' {
            proof {
                assert(s@.skip(cur as int).first() == '\\');
            }
            if cur + 1 >= n {
                proof {
                    assert(s@.skip(cur as int).len() == 1);
                }
                return None;
            }
            let e = s[cur + 1];
            proof {
                assert(s@.skip(cur as int)[1] == s@[cur as int + 1]);
            }
            if e == '"' || e == '\\' {
                let ghost val_before = val@;
                val.push(e);
                proof {
                    assert(s@.skip(cur as int).skip(2) =~= s@.skip(cur as int + 2));
                    assert(val@ =~= val_before.push(e));
                    assert forall|q0: Seq<char>| true implies val_before + (seq![e] + q0) == (
                    val_before.push(e) + q0) by {
                        assert(val_before + (seq![e] + q0) =~= val_before.push(e) + q0);
                    }
                }
                cur = cur + 2;
            } else {
                return None;
            }
        } else {
            let ghost val_before = val@;
            val.push(c);
            proof {
                assert(s@.skip(cur as int).first() == c);
                assert(s@.skip(cur as int).drop_first() =~= s@.skip(cur as int + 1));
                assert(val@ =~= val_before.push(c));
                assert forall|q0: Seq<char>| true implies val_before + (seq![c] + q0) == (
                val_before.push(c) + q0) by {
                    assert(val_before + (seq![c] + q0) =~= val_before.push(c) + q0);
                }
            }
            cur = cur + 1;
        }
    }
}

/// Parses a string or `null` out of the document at position `i`.
fn parse_opt(s: &Vec<char>, i: usize) -> (r: Option<(Option<String>, usize)>)
    requires
        i <= s@.len(),
    ensures
        match r {
            Some(p) => i <= p.1 <= s@.len() && sp_opt(s@.skip(i as int)) == Some(
                (p.0.deep_view(), s@.skip(p.1 as int)),
            ),
            None => sp_opt(s@.skip(i as int)) is None,
        },
{
    let n = s.len();
    if n - i >= 4 && s[i] == 'n' && s[i + 1] == 'u' && s[i + 2] == 'l' && s[i + 3] == 'l' {
        proof {
            reveal_strlit("null");
            assert(s@.skip(i as int).take(4) =~= "null"@);
            assert(s@.skip(i as int).skip(4) =~= s@.skip(i as int + 4));
        }
        return Some((None, i + 4));
    }
    proof {
        reveal_strlit("null");
        let t = s@.skip(i as int);
        if t.len() >= 4 && t.take(4) == "null"@ {
            assert(t.take(4)[0] == s@[i as int]);
            assert(t.take(4)[1] == s@[i as int + 1]);
            assert(t.take(4)[2] == s@[i as int + 2]);
            assert(t.take(4)[3] == s@[i as int + 3]);
            assert(false);
        }
    }
    match parse_string(s, i) {
        Some(p) => Some((Some(p.0), p.1)),
        None => None,
    }
}

/// Parses one `"key":value` pair out of the document at position `i`.
fn parse_pair(s: &Vec<char>, i: usize) -> (r: Option<((String, Option<String>), usize)>)
    requires
        i <= s@.len(),
    ensures
        match r {
            Some(p) => i <= p.1 <= s@.len() && sp_pair(s@.skip(i as int)) == Some(
                (p.0.deep_view(), s@.skip(p.1 as int)),
            ),
            None => sp_pair(s@.skip(i as int)) is None,
        },
{
    let n = s.len();
    match parse_string(s, i) {
        Some(k) => {
            let j = k.1;
            if j < n && s[j] == ':' {
                proof {
                    assert(s@.skip(j as int).drop_first() =~= s@.skip(j as int + 1));
                }
                match parse_opt(s, j + 1) {
                    Some(v) => Some(((k.0, v.0), v.1)),
                    None => None,
                }
            } else {
                None
            }
        },
        None => None,
    }
}

/// Parses comma-separated pairs out of the document at position `i`.
fn parse_pairs(s: &Vec<char>, i: usize) -> (r: Option<(Vec<(String, Option<String>)>, usize)>)
    requires
        i <= s@.len(),
    ensures
        match r {
            Some(p) => i <= p.1 <= s@.len() && sp_pairs(s@.skip(i as int), (s@.len() - i) as nat)
                == Some((p.0.deep_view(), s@.skip(p.1 as int))),
            None => sp_pairs(s@.skip(i as int), (s@.len() - i) as nat) is None,
        },
{
    let n = s.len();
    let ghost t0 = s@.skip(i as int);
    let ghost fuel0 = (s@.len() - i) as nat;
    let mut built: Vec<(String, Option<String>)> = Vec::new();
    let mut cur = i;
    let ghost mut cur_fuel = fuel0;
    proof {
        assert(built.deep_view() =~= Seq::<(Seq<char>, Option<Seq<char>>)>::empty());
    }
    loop
        invariant
            i <= cur <= n,
            n == s@.len(),
            t0 == s@.skip(i as int),
            fuel0 == (s@.len() - i) as nat,
            cur_fuel >= n - cur,
            (match sp_pairs(s@.skip(cur as int), cur_fuel) {
                Some(q) => sp_pairs(t0, fuel0) == Some((built.deep_view() + q.0, q.1)),
                None => sp_pairs(t0, fuel0) is None,
            }),
        decreases n - cur,
    {
        let ghost built_before = built.deep_view();
        match parse_pair(s, cur) {
            None => {
                return None;
            },
            Some(p) => {
                let j = p.1;
                proof {
                    assert(s@.skip(cur as int).len() >= 1);
                }
                if j < n && s[j] == ',' {
                    built.push(p.0);
                    proof {
                        assert(s@.skip(j as int).drop_first() =~= s@.skip(j as int + 1));
                        assert(built.deep_view() =~= built_before.push(p.0.deep_view()));
                        assert forall|q0: Seq<(Seq<char>, Option<Seq<char>>)>|
                            true implies built_before + (seq![p.0.deep_view()] + q0) == (
                        built_before.push(p.0.deep_view()) + q0) by {
                            assert(built_before + (seq![p.0.deep_view()] + q0) =~= (
                            built_before.push(p.0.deep_view()) + q0));
                        }
                        cur_fuel = (cur_fuel - 1) as nat;
                    }
                    cur = j + 1;
                } else {
                    built.push(p.0);
                    proof {
                        assert(built.deep_view() =~= built_before.push(p.0.deep_view()));
                        assert(built_before + seq![p.0.deep_view()] =~= built.deep_view());
                        if j < n {
                            assert(s@.skip(j as int).first() == s@[j as int]);
                        }
                    }
                    return Some((built, j));
                }
            },
        }
    }
}

/// Looks a key up among parsed fields.
fn lookup_field(fields: &Vec<(String, Option<String>)>, key: &str) -> (r: Option<Option<String>>)
    ensures
        match r {
            Some(v) => field_lookup(fields.deep_view(), key@) == Some(v.deep_view()),
            None => field_lookup(fields.deep_view(), key@) is None,
        },
{
    let ghost fm = fields.deep_view();
    let n = fields.len();
    let mut i: usize = 0;
    proof {
        assert(fm.skip(0) =~= fm);
    }
    while i < n
        invariant
            n == fields@.len(),
            i <= n,
            fm == fields.deep_view(),
            field_lookup(fm, key@) == field_lookup(fm.skip(i as int), key@),
        decreases n - i,
    {
        proof {
            assert(fm.skip(i as int).first() == fm[i as int]);
            assert(fm.skip(i as int).drop_first() =~= fm.skip(i as int + 1));
        }
        let entry = &fields[i];
        if crate::scan::str_eq(entry.0.as_str(), key) {
            return Some(crate::identity::clone_opt_string(&entry.1));
        }
        i += 1;
    }
    proof {
        assert(fm.skip(i as int).len() == 0);
    }
    None
}

/// A key's value with absent and null flattened, executably.
fn opt_field_exec(fields: &Vec<(String, Option<String>)>, key: &str) -> (r: Option<String>)
    ensures
        r.deep_view() == opt_field(fields.deep_view(), key@),
{
    match lookup_field(fields, key) {
        Some(v) => v,
        None => None,
    }
}

/// Builds the identity a parsed object describes.
fn ident_of_fields(fields: &Vec<(String, Option<String>)>) -> (r: Option<ExtensionIdentity>)
    ensures
        match r {
            Some(id) => model_of_fields(fields.deep_view()) == Some(id.deep_view()),
            None => model_of_fields(fields.deep_view()) is None,
        },
{
    let name = match lookup_field(fields, "name") {
        Some(Some(n)) => n,
        _ => {
            return None;
        },
    };
    Some(
        ExtensionIdentity {
            os_id: opt_field_exec(fields, "id"),
            sysext_id: opt_field_exec(fields, "sysext_id"),
            version_id: opt_field_exec(fields, "sysext_version_id"),
            scope: opt_field_exec(fields, "sysext_scope"),
            architecture: opt_field_exec(fields, "architecture"),
            name,
            storage_path: opt_field_exec(fields, "path"),
        },
    )
}

/// Parses one identity object out of the document at position `i`.
fn parse_ident(s: &Vec<char>, i: usize) -> (r: Option<(ExtensionIdentity, usize)>)
    requires
        i <= s@.len(),
    ensures
        match r {
            Some(p) => i <= p.1 <= s@.len() && sp_ident(s@.skip(i as int)) == Some(
                (p.0.deep_view(), s@.skip(p.1 as int)),
            ),
            None => sp_ident(s@.skip(i as int)) is None,
        },
{
    let n = s.len();
    if i >= n || s[i] != '{' {
        return None;
    }
    proof {
        assert(s@.skip(i as int).drop_first() =~= s@.skip(i as int + 1));
        assert((s@.skip(i as int).len() - 1) as nat == (s@.len() - (i + 1)) as nat);
    }
    match parse_pairs(s, i + 1) {
        None => None,
        Some(p) => {
            let j = p.1;
            if j < n && s[j] == '}' {
                proof {
                    assert(s@.skip(j as int).first() == s@[j as int]);
                    assert(s@.skip(j as int).drop_first() =~= s@.skip(j as int + 1));
                }
                match ident_of_fields(&p.0) {
                    Some(id) => Some((id, j + 1)),
                    None => None,
                }
            } else {
                proof {
                    if j < n {
                        assert(s@.skip(j as int).first() == s@[j as int]);
                    }
                }
                None
            }
        },
    }
}

/// Parses comma-separated identity objects out of the document at
/// position `i`.
fn parse_items(s: &Vec<char>, i: usize) -> (r: Option<(Vec<ExtensionIdentity>, usize)>)
    requires
        i <= s@.len(),
    ensures
        match r {
            Some(p) => i <= p.1 <= s@.len() && sp_items(s@.skip(i as int), (s@.len() - i) as nat)
                == Some((p.0.deep_view(), s@.skip(p.1 as int))),
            None => sp_items(s@.skip(i as int), (s@.len() - i) as nat) is None,
        },
{
    let n = s.len();
    let ghost t0 = s@.skip(i as int);
    let ghost fuel0 = (s@.len() - i) as nat;
    let mut built: Vec<ExtensionIdentity> = Vec::new();
    let mut cur = i;
    let ghost mut cur_fuel = fuel0;
    proof {
        assert(built.deep_view() =~= Seq::<IdentityModel>::empty());
    }
    loop
        invariant
            i <= cur <= n,
            n == s@.len(),
            t0 == s@.skip(i as int),
            fuel0 == (s@.len() - i) as nat,
            cur_fuel >= n - cur,
            (match sp_items(s@.skip(cur as int), cur_fuel) {
                Some(q) => sp_items(t0, fuel0) == Some((built.deep_view() + q.0, q.1)),
                None => sp_items(t0, fuel0) is None,
            }),
        decreases n - cur,
    {
        let ghost built_before = built.deep_view();
        match parse_ident(s, cur) {
            None => {
                return None;
            },
            Some(p) => {
                let j = p.1;
                proof {
                    assert(s@.skip(cur as int).len() >= 1);
                }
                if j < n && s[j] == ',' {
                    built.push(p.0);
                    proof {
                        assert(s@.skip(j as int).drop_first() =~= s@.skip(j as int + 1));
                        assert(built.deep_view() =~= built_before.push(p.0.deep_view()));
                        assert forall|q0: Seq<IdentityModel>| true implies built_before + (seq![
                            p.0.deep_view(),
                        ] + q0) == (built_before.push(p.0.deep_view()) + q0) by {
                            assert(built_before + (seq![p.0.deep_view()] + q0) =~= (
                            built_before.push(p.0.deep_view()) + q0));
                        }
                        cur_fuel = (cur_fuel - 1) as nat;
                    }
                    cur = j + 1;
                } else {
                    built.push(p.0);
                    proof {
                        assert(built.deep_view() =~= built_before.push(p.0.deep_view()));
                        assert(built_before + seq![p.0.deep_view()] =~= built.deep_view());
                        if j < n {
                            assert(s@.skip(j as int).first() == s@[j as int]);
                        }
                    }
                    return Some((built, j));
                }
            },
        }
    }
}

/// Decodes a snapshot document; `None` when the text is not an encoded
/// snapshot.
pub fn decode_snapshot(content: &str) -> (r: Option<Vec<ExtensionIdentity>>)
    ensures
        match r {
            Some(v) => sp_decode(content@) == Some(v.deep_view()),
            None => sp_decode(content@) is None,
        },
{
    let chars = to_char_vec(content);
    let n = chars.len();
    if n < 2 {
        return None;
    }
    if chars[0] != '[' {
        return None;
    }
    if chars[1] == ']' {
        if n == 2 {
            let empty: Vec<ExtensionIdentity> = Vec::new();
            proof {
                assert(empty.deep_view() =~= Seq::<IdentityModel>::empty());
            }
            return Some(empty);
        }
        return None;
    }
    proof {
        assert(chars@.skip(1) =~= chars@.drop_first());
        assert((chars@.len() - 1) as nat == (chars@.len() - 1) as nat);
    }
    match parse_items(&chars, 1) {
        None => None,
        Some(p) => {
            let j = p.1;
            if j == n - 1 && chars[j] == ']' {
                proof {
                    assert(chars@.skip(j as int) =~= seq![']']);
                }
                Some(p.0)
            } else {
                proof {
                    if chars@.skip(j as int) == seq![']'] {
                        assert(chars@.skip(j as int).len() == 1);
                        assert(chars@.skip(j as int)[0] == chars@[j as int]);
                        assert(false);
                    }
                }
                None
            }
        },
    }
}

/// Law: the snapshot codec is lossless — decoding an encoded snapshot
/// yields the snapshot back, field for field, for every snapshot.
pub proof fn lemma_snapshot_round_trip(s: Seq<IdentityModel>)
    ensures
        sp_decode(spec_encode(s)) == Some(s),
{
    let t = spec_encode(s);
    assert(t.first() == '[');
    if s.len() == 0 {
        assert(t =~= seq!['[', ']']);
    } else {
        lemma_enc_ident_len(s[0]);
        assert(enc_items(s)[0] == enc_ident(s.first())[0]);
        assert(enc_ident(s.first()).first() == '{');
        assert(t[1] == enc_items(s)[0]);
        assert(t[1] != ']');
        assert(t.drop_first() =~= enc_items(s) + seq![']']);
        lemma_enc_items_len(s);
        lemma_rt_items(s, seq![']'], (t.len() - 1) as nat);
    }
}

} // verus!
