//! The server-properties file format: parsing key/value lines and
//! rendering them back.
//!
//! A line holds a property when, after trimming, it does not start
//! with '#' and contains '='; the key is what stands before the first
//! '=' and the value what stands after, both trimmed.  Other lines
//! are skipped.  Parsed pairs keep file order, so a caller that
//! stores them into a map by inserting in order reproduces the usual
//! last-occurrence-wins reading.

use vstd::prelude::*;
use vstd::string::StringExecFns;
use vstd::string::StringSliceAdditionalSpecFns;
use crate::text::{
    find_byte, first_index, has_prefix, is_ws, lemma_first_index, lemma_first_index_is,
    lemma_split_lines_cons, lemma_trim_clean, split_lines, starts_with, trim_ascii, trim_spec,
};

verus! {

/// The key/value pair a single line contributes, if any.
pub open spec fn parse_prop_line(l: Seq<u8>) -> Option<(Seq<u8>, Seq<u8>)> {
    let t = trim_spec(l);
    if t.len() > 0 && t[0] == 35u8 {
        None
    } else {
        let i = first_index(t, 61u8);
        if i < 0 {
            None
        } else {
            Some((trim_spec(t.subrange(0, i)), trim_spec(t.subrange(i + 1, t.len() as int))))
        }
    }
}

/// The pairs a sequence of lines contributes, in order.
pub open spec fn parse_props_lines(ls: Seq<Seq<u8>>) -> Seq<(Seq<u8>, Seq<u8>)>
    decreases ls.len(),
{
    if ls.len() == 0 {
        Seq::empty()
    } else {
        match parse_prop_line(ls[0]) {
            Some(kv) => seq![kv] + parse_props_lines(ls.drop_first()),
            None => parse_props_lines(ls.drop_first()),
        }
    }
}

/// The pairs a whole properties file contributes.
pub open spec fn parse_props(content: Seq<u8>) -> Seq<(Seq<u8>, Seq<u8>)> {
    parse_props_lines(split_lines(content))
}

/// View of a vector of byte-pair entries as a sequence of pairs of
/// byte sequences.
pub open spec fn pairs_view(v: Seq<(Vec<u8>, Vec<u8>)>) -> Seq<(Seq<u8>, Seq<u8>)> {
    Seq::new(v.len(), |i: int| (v[i].0@, v[i].1@))
}

/// Parse one line.
fn parse_line(l: &[u8]) -> (r: Option<(Vec<u8>, Vec<u8>)>)
    ensures
        match r {
            Some(kv) => parse_prop_line(l@) == Some((kv.0@, kv.1@)),
            None => parse_prop_line(l@) is None,
        },
{
    let t = trim_ascii(l);
    if t.len() > 0 && t[0] == 35u8 {
        return None;
    }
    match find_byte(t, 61u8) {
        None => None,
        Some(i) => {
            proof {
                lemma_first_index(t@, 61u8);
            }
            let k = trim_ascii(vstd::slice::slice_subrange(t, 0, i));
            let v = trim_ascii(vstd::slice::slice_subrange(t, i + 1, t.len()));
            Some((vstd::slice::slice_to_vec(k), vstd::slice::slice_to_vec(v)))
        },
    }
}

/// Parse a whole properties file; exact with respect to
/// `parse_props`.
pub fn parse_properties(content: &[u8]) -> (r: Vec<(Vec<u8>, Vec<u8>)>)
    ensures
        pairs_view(r@) == parse_props(content@),
    decreases content@.len(),
{
    if content.len() == 0 {
        let r: Vec<(Vec<u8>, Vec<u8>)> = Vec::new();
        proof {
            assert(pairs_view(r@) =~= parse_props(content@));
        }
        return r;
    }
    match find_byte(content, 0x0a) {
        Some(i) => {
            proof {
                lemma_first_index(content@, 0x0a);
            }
            let line = vstd::slice::slice_subrange(content, 0, i);
            let rest = vstd::slice::slice_subrange(content, i + 1, content.len());
            let mut out: Vec<(Vec<u8>, Vec<u8>)> = Vec::new();
            match parse_line(line) {
                Some(kv) => out.push(kv),
                None => {},
            }
            let mut tail = parse_properties(rest);
            out.append(&mut tail);
            proof {
                let lines = split_lines(content@);
                assert(lines.drop_first() =~= split_lines(rest@));
                assert(pairs_view(out@) =~= parse_props(content@));
            }
            out
        },
        None => {
            let mut out: Vec<(Vec<u8>, Vec<u8>)> = Vec::new();
            match parse_line(content) {
                Some(kv) => out.push(kv),
                None => {},
            }
            proof {
                let lines = split_lines(content@);
                assert(lines =~= seq![content@]);
                assert(lines.drop_first() =~= Seq::<Seq<u8>>::empty());
                assert(parse_props_lines(Seq::<Seq<u8>>::empty()) =~= Seq::<
                    (Seq<u8>, Seq<u8>),
                >::empty());
                assert(pairs_view(out@) =~= parse_props(content@));
            }
            out
        },
    }
}

/// The prefix that names the world directory in the properties file.
pub open spec fn level_name_key() -> Seq<u8> {
    "level-name=".spec_bytes()
}

/// The configured world name: what follows the first line starting
/// with "level-name=", trimmed; "world" when no such line exists.
pub open spec fn level_name_in_lines(ls: Seq<Seq<u8>>) -> Seq<u8>
    decreases ls.len(),
{
    if ls.len() == 0 {
        "world".spec_bytes()
    } else if starts_with(ls[0], level_name_key()) {
        trim_spec(ls[0].skip(level_name_key().len() as int))
    } else {
        level_name_in_lines(ls.drop_first())
    }
}

/// The configured world name of a whole properties file.
pub open spec fn level_name_spec(content: Seq<u8>) -> Seq<u8> {
    level_name_in_lines(split_lines(content))
}

/// Extract the configured world name; exact with respect to
/// `level_name_spec`.
pub fn level_name(content: &[u8]) -> (r: Vec<u8>)
    ensures
        r@ == level_name_spec(content@),
    decreases content@.len(),
{
    let key = "level-name=".as_bytes();
    if content.len() == 0 {
        return vstd::slice::slice_to_vec("world".as_bytes());
    }
    match find_byte(content, 0x0a) {
        Some(i) => {
            proof {
                lemma_first_index(content@, 0x0a);
            }
            let line = vstd::slice::slice_subrange(content, 0, i);
            let rest = vstd::slice::slice_subrange(content, i + 1, content.len());
            if has_prefix(line, key) {
                let tail = vstd::slice::slice_subrange(line, key.len(), line.len());
                proof {
                    let ls = split_lines(content@);
                    assert(ls[0] == line@);
                    assert(starts_with(ls[0], level_name_key()));
                    assert(tail@ =~= line@.skip(level_name_key().len() as int));
                    assert(level_name_in_lines(ls) == trim_spec(
                        ls[0].skip(level_name_key().len() as int),
                    ));
                }
                vstd::slice::slice_to_vec(trim_ascii(tail))
            } else {
                let r = level_name(rest);
                proof {
                    let ls = split_lines(content@);
                    assert(ls[0] == line@);
                    assert(!starts_with(ls[0], level_name_key()));
                    assert(ls.drop_first() =~= split_lines(rest@));
                    assert(level_name_in_lines(ls) == level_name_in_lines(ls.drop_first()));
                }
                r
            }
        },
        None => {
            if has_prefix(content, key) {
                let tail = vstd::slice::slice_subrange(content, key.len(), content.len());
                proof {
                    let ls = split_lines(content@);
                    assert(ls =~= seq![content@]);
                    assert(ls[0] == content@);
                    assert(starts_with(ls[0], level_name_key()));
                    assert(tail@ =~= content@.skip(level_name_key().len() as int));
                    assert(level_name_in_lines(ls) == trim_spec(
                        ls[0].skip(level_name_key().len() as int),
                    ));
                }
                vstd::slice::slice_to_vec(trim_ascii(tail))
            } else {
                proof {
                    let ls = split_lines(content@);
                    assert(ls =~= seq![content@]);
                    assert(ls.drop_first() =~= Seq::<Seq<u8>>::empty());
                    assert(level_name_in_lines(Seq::<Seq<u8>>::empty()) == "world".spec_bytes());
                    assert(level_name_in_lines(ls) == "world".spec_bytes());
                }
                vstd::slice::slice_to_vec("world".as_bytes())
            }
        },
    }
}

/// View of string pairs as pairs of character sequences.
pub open spec fn str_pairs_view(v: Seq<(String, String)>) -> Seq<(Seq<char>, Seq<char>)> {
    Seq::new(v.len(), |i: int| (v[i].0@, v[i].1@))
}

/// The "key=value" lines for the pairs from position `i` on.
pub open spec fn props_content_from(pairs: Seq<(Seq<char>, Seq<char>)>, i: int) -> Seq<char>
    decreases pairs.len() - i,
{
    if i < 0 || i >= pairs.len() {
        Seq::empty()
    } else {
        pairs[i].0 + "="@ + pairs[i].1 + "\n"@ + props_content_from(pairs, i + 1)
    }
}

/// The full rendered properties file: a marker comment, then one
/// "key=value" line per pair, in order.
pub open spec fn properties_file(pairs: Seq<(Seq<char>, Seq<char>)>) -> Seq<char> {
    "# Updated by Roam MC Manager\n"@ + props_content_from(pairs, 0)
}

fn props_lines_from(pairs: &Vec<(String, String)>, i: usize) -> (r: String)
    requires
        i <= pairs@.len(),
    ensures
        r@ == props_content_from(str_pairs_view(pairs@), i as int),
    decreases pairs@.len() - i,
{
    if i == pairs.len() {
        String::new()
    } else {
        let mut s = pairs[i].0.clone();
        s.append("=");
        s.append(pairs[i].1.as_str());
        s.append("\n");
        let rest = props_lines_from(pairs, i + 1);
        s.append(rest.as_str());
        s
    }
}

/// Render pairs back into properties-file contents; exact with
/// respect to `properties_file`.
pub fn write_properties_content(pairs: &Vec<(String, String)>) -> (r: String)
    ensures
        r@ == properties_file(str_pairs_view(pairs@)),
{
    let mut s = String::from_str("# Updated by Roam MC Manager\n");
    let rest = props_lines_from(pairs, 0);
    s.append(rest.as_str());
    s
}

/// A key that survives a round trip: nonempty, no '=' or newline, no
/// whitespace at either end, and not starting a comment.
pub open spec fn clean_key(k: Seq<u8>) -> bool {
    &&& k.len() > 0
    &&& !is_ws(k[0])
    &&& !is_ws(k[k.len() - 1])
    &&& k[0] != 0x23
    &&& forall|i: int| 0 <= i < k.len() ==> k[i] != 0x3d && k[i] != 0x0a
}

/// A value that survives a round trip: no newline and no whitespace
/// at either end.
pub open spec fn clean_value(v: Seq<u8>) -> bool {
    &&& v.len() > 0 ==> !is_ws(v[0]) && !is_ws(v[v.len() - 1])
    &&& forall|i: int| 0 <= i < v.len() ==> v[i] != 0x0a
}

/// The rendered "key=value" lines for the pairs from position `i`
/// on, as bytes.
pub open spec fn rendered_pairs_from(kvs: Seq<(Seq<u8>, Seq<u8>)>, i: int) -> Seq<u8>
    decreases kvs.len() - i,
{
    if i < 0 || i >= kvs.len() {
        Seq::<u8>::empty()
    } else {
        kvs[i].0 + seq![0x3du8] + kvs[i].1 + seq![0x0au8] + rendered_pairs_from(kvs, i + 1)
    }
}

proof fn lemma_parse_clean_line(k: Seq<u8>, v: Seq<u8>)
    requires
        clean_key(k),
        clean_value(v),
    ensures
        parse_prop_line(k + seq![0x3du8] + v) == Some((k, v)),
{
    let l = k + seq![0x3du8] + v;
    assert(l[0] == k[0]);
    if v.len() > 0 {
        assert(l[l.len() - 1] == v[v.len() - 1]);
    } else {
        assert(l[l.len() - 1] == 0x3d);
    }
    lemma_trim_clean(l);
    assert(l[k.len() as int] == 0x3d);
    assert forall|j: int| 0 <= j < k.len() implies l[j] != 0x3d by {
        assert(l[j] == k[j]);
    }
    lemma_first_index_is(l, 0x3d, k.len() as int);
    assert(l.subrange(0, k.len() as int) =~= k);
    lemma_trim_clean(k);
    assert(l.subrange(k.len() as int + 1, l.len() as int) =~= v);
    lemma_trim_clean(v);
}

proof fn lemma_parse_rendered_from(kvs: Seq<(Seq<u8>, Seq<u8>)>, i: int)
    requires
        0 <= i <= kvs.len(),
        forall|j: int| 0 <= j < kvs.len() ==> clean_key(#[trigger] kvs[j].0) && clean_value(
            kvs[j].1,
        ),
    ensures
        parse_props(rendered_pairs_from(kvs, i)) == kvs.skip(i),
    decreases kvs.len() - i,
{
    if i == kvs.len() {
        assert(kvs.skip(i) =~= Seq::<(Seq<u8>, Seq<u8>)>::empty());
        assert(split_lines(rendered_pairs_from(kvs, i)) =~= Seq::<Seq<u8>>::empty());
        assert(parse_props(rendered_pairs_from(kvs, i)) =~= kvs.skip(i));
    } else {
        let line = kvs[i].0 + seq![0x3du8] + kvs[i].1;
        let rest = rendered_pairs_from(kvs, i + 1);
        assert(rendered_pairs_from(kvs, i) =~= line + seq![0x0au8] + rest);
        assert forall|p: int| 0 <= p < line.len() implies line[p] != 0x0a by {
            if p < kvs[i].0.len() {
                assert(line[p] == kvs[i].0[p]);
            } else if p > kvs[i].0.len() {
                assert(line[p] == kvs[i].1[p - kvs[i].0.len() - 1]);
            }
        }
        lemma_split_lines_cons(line, rest);
        lemma_parse_clean_line(kvs[i].0, kvs[i].1);
        lemma_parse_rendered_from(kvs, i + 1);
        let ls = seq![line] + split_lines(rest);
        assert(ls.drop_first() =~= split_lines(rest));
        assert(parse_props_lines(ls) =~= seq![kvs[i]] + parse_props_lines(split_lines(rest)));
        assert(kvs.skip(i) =~= seq![kvs[i]] + kvs.skip(i + 1));
        assert(parse_props(rendered_pairs_from(kvs, i)) =~= kvs.skip(i));
    }
}

/// Parsing a rendered byte file yields the pairs unchanged: the
/// marker comment is skipped, and every clean key/value pair comes
/// back as it went in.
pub proof fn lemma_properties_round_trip(kvs: Seq<(Seq<u8>, Seq<u8>)>)
    requires
        forall|j: int| 0 <= j < kvs.len() ==> clean_key(#[trigger] kvs[j].0) && clean_value(
            kvs[j].1,
        ),
    ensures
        parse_props("# Updated by Roam MC Manager\n".spec_bytes() + rendered_pairs_from(kvs, 0))
            == kvs,
{
    reveal_strlit("# Updated by Roam MC Manager\n");
    let hc = "# Updated by Roam MC Manager\n"@;
    assert(vstd::utf8::is_ascii_chars(hc));
    vstd::utf8::is_ascii_chars_encode_utf8(hc);
    let hb = "# Updated by Roam MC Manager\n".spec_bytes();
    let hline = hb.subrange(0, hb.len() - 1);
    let body = rendered_pairs_from(kvs, 0);
    assert(hb[hb.len() - 1] == 0x0a);
    assert(hb + body =~= hline + seq![0x0au8] + body);
    assert forall|p: int| 0 <= p < hline.len() implies hline[p] != 0x0a by {
        assert(hline[p] == hc[p] as u8);
    }
    lemma_split_lines_cons(hline, body);
    assert(hline[0] == 0x23);
    assert(!is_ws(hline[0]));
    assert(!is_ws(hline[hline.len() - 1]));
    lemma_trim_clean(hline);
    assert(parse_prop_line(hline) is None);
    lemma_parse_rendered_from(kvs, 0);
    let ls = seq![hline] + split_lines(body);
    assert(ls.drop_first() =~= split_lines(body));
    assert(parse_props_lines(ls) =~= parse_props_lines(split_lines(body)));
    assert(kvs.skip(0) =~= kvs);
    assert(parse_props(hb + body) =~= kvs);
}

/// The bytes of an ASCII character sequence, one byte per character.
pub open spec fn ascii_bytes(s: Seq<char>) -> Seq<u8> {
    Seq::new(s.len(), |i: int| s[i] as u8)
}

/// String pairs read as byte pairs, character by character.
pub open spec fn ascii_pairs(ps: Seq<(Seq<char>, Seq<char>)>) -> Seq<(Seq<u8>, Seq<u8>)> {
    Seq::new(ps.len(), |i: int| (ascii_bytes(ps[i].0), ascii_bytes(ps[i].1)))
}

proof fn lemma_encode_ascii_concat(a: Seq<char>, b: Seq<char>)
    requires
        vstd::utf8::is_ascii_chars(a),
        vstd::utf8::is_ascii_chars(b),
    ensures
        vstd::utf8::is_ascii_chars(a + b),
        vstd::utf8::encode_utf8(a + b) == vstd::utf8::encode_utf8(a) + vstd::utf8::encode_utf8(b),
        vstd::utf8::encode_utf8(a + b) == ascii_bytes(a + b),
{
    let c = a + b;
    assert forall|i: int| 0 <= i < c.len() implies '\0' <= #[trigger] c[i] <= '\u{7f}' by {
        if i < a.len() {
            assert(c[i] == a[i]);
        } else {
            assert(c[i] == b[i - a.len()]);
        }
    }
    vstd::utf8::is_ascii_chars_encode_utf8(a);
    vstd::utf8::is_ascii_chars_encode_utf8(b);
    vstd::utf8::is_ascii_chars_encode_utf8(c);
    assert(vstd::utf8::encode_utf8(c) =~= vstd::utf8::encode_utf8(a) + vstd::utf8::encode_utf8(
        b,
    ));
    assert(vstd::utf8::encode_utf8(c) =~= ascii_bytes(c));
}

proof fn lemma_rendered_content(ps: Seq<(Seq<char>, Seq<char>)>, i: int)
    requires
        0 <= i <= ps.len(),
        forall|j: int| 0 <= j < ps.len() ==> vstd::utf8::is_ascii_chars(#[trigger] ps[j].0)
            && vstd::utf8::is_ascii_chars(ps[j].1),
    ensures
        vstd::utf8::is_ascii_chars(props_content_from(ps, i)),
        vstd::utf8::encode_utf8(props_content_from(ps, i)) == rendered_pairs_from(
            ascii_pairs(ps),
            i,
        ),
    decreases ps.len() - i,
{
    reveal_strlit("=");
    reveal_strlit("\n");
    if i == ps.len() {
        assert(vstd::utf8::is_ascii_chars(props_content_from(ps, i)));
        assert(vstd::utf8::encode_utf8(props_content_from(ps, i)) =~= Seq::<u8>::empty());
        assert(rendered_pairs_from(ascii_pairs(ps), i) =~= Seq::<u8>::empty());
    } else {
        lemma_rendered_content(ps, i + 1);
        let a1 = ps[i].0;
        let e = "="@;
        let a2 = ps[i].1;
        let nl = "\n"@;
        let rec = props_content_from(ps, i + 1);
        assert(vstd::utf8::is_ascii_chars(e));
        assert(vstd::utf8::is_ascii_chars(nl));
        lemma_encode_ascii_concat(a1, e);
        lemma_encode_ascii_concat(a1 + e, a2);
        lemma_encode_ascii_concat(a1 + e + a2, nl);
        lemma_encode_ascii_concat(a1 + e + a2 + nl, rec);
        vstd::utf8::is_ascii_chars_encode_utf8(a1);
        vstd::utf8::is_ascii_chars_encode_utf8(a2);
        vstd::utf8::is_ascii_chars_encode_utf8(rec);
        let ap = ascii_pairs(ps);
        assert(vstd::utf8::encode_utf8(a1) =~= ap[i].0);
        assert(vstd::utf8::encode_utf8(a2) =~= ap[i].1);
        assert(vstd::utf8::encode_utf8(props_content_from(ps, i)) =~= ap[i].0 + seq![0x3du8]
            + ap[i].1 + seq![0x0au8] + rendered_pairs_from(ap, i + 1));
        assert(rendered_pairs_from(ap, i) =~= ap[i].0 + seq![0x3du8] + ap[i].1 + seq![0x0au8]
            + rendered_pairs_from(ap, i + 1));
    }
}

/// Writing properties and parsing the written file back yields the
/// pairs unchanged, for ASCII pairs whose keys and values are clean:
/// what `write_properties_content` renders, `parse_properties` reads
/// back exactly, the marker comment skipped.
pub proof fn lemma_write_read_round_trip(ps: Seq<(Seq<char>, Seq<char>)>)
    requires
        forall|j: int| 0 <= j < ps.len() ==> vstd::utf8::is_ascii_chars(#[trigger] ps[j].0)
            && vstd::utf8::is_ascii_chars(ps[j].1) && clean_key(ascii_bytes(ps[j].0))
            && clean_value(ascii_bytes(ps[j].1)),
    ensures
        parse_props(vstd::utf8::encode_utf8(properties_file(ps))) == ascii_pairs(ps),
{
    reveal_strlit("# Updated by Roam MC Manager\n");
    let hc = "# Updated by Roam MC Manager\n"@;
    assert(vstd::utf8::is_ascii_chars(hc));
    lemma_rendered_content(ps, 0);
    lemma_encode_ascii_concat(hc, props_content_from(ps, 0));
    vstd::utf8::is_ascii_chars_encode_utf8(hc);
    assert(vstd::utf8::encode_utf8(hc)
        == "# Updated by Roam MC Manager\n".spec_bytes());
    let ap = ascii_pairs(ps);
    assert forall|j: int| 0 <= j < ap.len() implies clean_key(#[trigger] ap[j].0) && clean_value(
        ap[j].1,
    ) by {
        assert(ap[j].0 == ascii_bytes(ps[j].0));
        assert(ap[j].1 == ascii_bytes(ps[j].1));
    }
    lemma_properties_round_trip(ap);
    assert(vstd::utf8::encode_utf8(properties_file(ps))
        == "# Updated by Roam MC Manager\n".spec_bytes() + rendered_pairs_from(ap, 0));
}

} // verus!
