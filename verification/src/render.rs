use vstd::prelude::*;
use crate::manifest::{
    LineKind, ManifestValue, ManifestView, MetadataView, ParseState, PartialTarget, TargetView,
    classify_line, empty_meta, finalize, init_state, parse_item, parse_items, parse_items_list,
    parse_lines, parse_value, spec_get_target, spec_parse_manifest, step_line,
};
use crate::strutil::{
    all_digits, find_char, is_digit, is_space, join_lines, lemma_find_char, lemma_find_char_append,
    parse_dec,
    lemma_find_char_is, lemma_find_char_none, lemma_lines_of_join, lemma_render_dec,
    lemma_split_cons, lemma_split_single, lemma_trim_end_drop, lemma_trim_id,
    lemma_trim_start_drop, lines_of, render_dec, split_at_char, trim, trim_end, trim_start,
};

verus! {

// ---------------------------------------------------------------------------
// The declared form of a manifest
// ---------------------------------------------------------------------------
//
// Nothing here executes: these functions say what text *declares* a given
// manifest, and the lemmas below prove that reading that text back yields
// exactly the declared targets.

/// A string value as a quoted token.
pub open spec fn quote_tok(v: Seq<char>) -> Seq<char> {
    seq!['"'] + v + seq!['"']
}

/// A `key = value` line.
pub open spec fn kv_line(key: Seq<char>, tok: Seq<char>) -> Seq<char> {
    key + seq![' ', '=', ' '] + tok
}

/// The body of a bracketed list: the items quoted, separated by `, `.
pub open spec fn items_body(items: Seq<Seq<char>>) -> Seq<char>
    decreases items.len(),
{
    if items.len() == 0 {
        seq![]
    } else if items.len() == 1 {
        quote_tok(items[0])
    } else {
        quote_tok(items[0]) + seq![',', ' '] + items_body(items.drop_first())
    }
}

/// A list value as a bracketed token.
pub open spec fn array_tok(items: Seq<Seq<char>>) -> Seq<char> {
    seq!['['] + items_body(items) + seq![']']
}

/// The line an optional string field declares: none when the field is
/// absent.
pub open spec fn opt_kv(key: Seq<char>, v: Option<Seq<char>>) -> Seq<Seq<char>> {
    match v {
        Some(x) => seq![kv_line(key, quote_tok(x))],
        None => seq![],
    }
}

/// The lines a metadata block declares.
pub open spec fn meta_lines(m: MetadataView) -> Seq<Seq<char>> {
    seq!["[target.metadata]"@] + opt_kv("name"@, m.name) + opt_kv("author"@, m.author) + opt_kv(
        "description"@,
        m.description,
    ) + opt_kv("bundle_id"@, m.bundle_id) + opt_kv("version"@, m.version) + (
    match m.build_number {
        Some(n) => seq![kv_line("build_number"@, render_dec(n))],
        None => seq![],
    }) + opt_kv("image_path"@, m.image_path) + opt_kv("launch_sound_path"@, m.launch_sound_path)
}

/// The lines one target block declares.
pub open spec fn target_lines(t: TargetView) -> Seq<Seq<char>> {
    seq!["[[target]]"@, kv_line("name"@, quote_tok(t.name))] + (match t.assets {
        Some(items) => seq![kv_line("assets"@, array_tok(items))],
        None => seq![],
    }) + (match t.metadata {
        Some(m) => meta_lines(m),
        None => seq![],
    })
}

/// The lines a sequence of targets declares, in order.
pub open spec fn targets_lines(ts: Seq<TargetView>) -> Seq<Seq<char>>
    decreases ts.len(),
{
    if ts.len() == 0 {
        seq![]
    } else {
        target_lines(ts[0]) + targets_lines(ts.drop_first())
    }
}

/// The text that declares a manifest, a newline after every line.
pub open spec fn render_manifest(m: ManifestView) -> Seq<char> {
    join_lines(targets_lines(m.targets))
}

// ---------------------------------------------------------------------------
// What a declarable value looks like
// ---------------------------------------------------------------------------

/// Text that fits on one line.
pub open spec fn line_text(v: Seq<char>) -> bool {
    forall|i: int| 0 <= i < v.len() ==> v[i] != '\n'
}

/// Text that fits as one list item: one line, no comma.
pub open spec fn item_text(v: Seq<char>) -> bool {
    line_text(v) && forall|i: int| 0 <= i < v.len() ==> v[i] != ','
}

/// Metadata whose present fields are all declarable.
pub open spec fn wf_metadata(m: MetadataView) -> bool {
    &&& (m.name matches Some(v) ==> line_text(v))
    &&& (m.author matches Some(v) ==> line_text(v))
    &&& (m.description matches Some(v) ==> line_text(v))
    &&& (m.bundle_id matches Some(v) ==> line_text(v))
    &&& (m.version matches Some(v) ==> line_text(v))
    &&& (m.image_path matches Some(v) ==> line_text(v))
    &&& (m.launch_sound_path matches Some(v) ==> line_text(v))
}

/// A target whose name, assets and metadata are all declarable.
pub open spec fn wf_target(t: TargetView) -> bool {
    &&& line_text(t.name)
    &&& (t.assets matches Some(items) ==> forall|i: int|
        0 <= i < items.len() ==> item_text(#[trigger] items[i]))
    &&& (t.metadata matches Some(m) ==> wf_metadata(m))
}

/// A manifest whose every target is declarable.
pub open spec fn wf_manifest(m: ManifestView) -> bool {
    forall|i: int| 0 <= i < m.targets.len() ==> wf_target(#[trigger] m.targets[i])
}

// ---------------------------------------------------------------------------
// Shapes of keys and tokens
// ---------------------------------------------------------------------------

/// What a key must look like for `key = value` to read back as itself.
pub open spec fn key_shape(k: Seq<char>) -> bool {
    &&& k.len() > 0
    &&& k[0] != '#'
    &&& !is_space(k[0])
    &&& !is_space(k[k.len() - 1])
    &&& forall|j: int| 0 <= j < k.len() ==> k[j] != '=' && k[j] != '\n'
}

/// What a value token must look like for `key = value` to read back as
/// itself.
pub open spec fn tok_shape(t: Seq<char>) -> bool {
    &&& t.len() > 0
    &&& !is_space(t[0])
    &&& !is_space(t[t.len() - 1])
    &&& forall|j: int| 0 <= j < t.len() ==> t[j] != '\n'
}

/// Every key of the manifest grammar has the key shape.
pub proof fn lemma_keys_shape()
    ensures
        key_shape("name"@),
        key_shape("author"@),
        key_shape("description"@),
        key_shape("bundle_id"@),
        key_shape("version"@),
        key_shape("build_number"@),
        key_shape("image_path"@),
        key_shape("launch_sound_path"@),
        key_shape("assets"@),
{
    reveal_strlit("name");
    reveal_strlit("author");
    reveal_strlit("description");
    reveal_strlit("bundle_id");
    reveal_strlit("version");
    reveal_strlit("build_number");
    reveal_strlit("image_path");
    reveal_strlit("launch_sound_path");
    reveal_strlit("assets");
}

/// The header lines hold no `=` and no newline, start with `[`, end with
/// `]`, and differ from one another.
pub proof fn lemma_headers_shape()
    ensures
        "[[target]]"@.len() == 10,
        "[target.metadata]"@.len() == 17,
        "[[target]]"@[0] == '[',
        "[[target]]"@[9] == ']',
        "[target.metadata]"@[0] == '[',
        "[target.metadata]"@[16] == ']',
        forall|j: int| 0 <= j < 10 ==> "[[target]]"@[j] != '=' && "[[target]]"@[j] != '\n',
        forall|j: int|
            0 <= j < 17 ==> "[target.metadata]"@[j] != '=' && "[target.metadata]"@[j] != '\n',
        "[[target]]"@ != "[target.metadata]"@,
{
    reveal_strlit("[[target]]");
    reveal_strlit("[target.metadata]");
    assert("[[target]]"@.len() != "[target.metadata]"@.len());
}

/// A quoted one-line value is a well-shaped token.
pub proof fn lemma_quote_tok_shape(v: Seq<char>)
    requires
        line_text(v),
    ensures
        tok_shape(quote_tok(v)),
        quote_tok(v).len() >= 2,
        quote_tok(v)[0] == '"',
        quote_tok(v)[quote_tok(v).len() - 1] == '"',
{
    let t = quote_tok(v);
    assert(t[0] == '"');
    assert(t[t.len() - 1] == '"');
    assert(forall|j: int| 0 <= j < t.len() ==> t[j] != '\n') by {
        assert forall|j: int| 0 <= j < t.len() implies t[j] != '\n' by {
            if j != 0 && j != t.len() - 1 {
                assert(t[j] == v[j - 1]);
            }
        }
    }
}

/// A rendered number is a well-shaped token that starts with a digit.
pub proof fn lemma_dec_tok_shape(n: u64)
    ensures
        tok_shape(render_dec(n)),
        is_digit(render_dec(n)[0]),
        is_digit(render_dec(n)[render_dec(n).len() - 1]),
{
    lemma_render_dec(n);
    let t = render_dec(n);
    assert(is_digit(t[0]));
    assert(is_digit(t[t.len() - 1]));
}

/// The body of a list of one-line, comma-free items holds neither a
/// newline nor a stray quote boundary problem; in particular no newline.
pub proof fn lemma_items_body_text(items: Seq<Seq<char>>)
    requires
        forall|i: int| 0 <= i < items.len() ==> item_text(#[trigger] items[i]),
    ensures
        line_text(items_body(items)),
    decreases items.len(),
{
    if items.len() == 0 {
    } else if items.len() == 1 {
        lemma_quote_tok_shape(items[0]);
        let t = quote_tok(items[0]);
        assert(forall|j: int| 0 <= j < t.len() ==> t[j] != '\n');
    } else {
        lemma_quote_tok_shape(items[0]);
        assert(forall|i: int|
            0 <= i < items.drop_first().len() ==> item_text(#[trigger] items.drop_first()[i]));
        lemma_items_body_text(items.drop_first());
        let q = quote_tok(items[0]);
        let rest = items_body(items.drop_first());
        let t = items_body(items);
        assert(t =~= q + seq![',', ' '] + rest);
        assert forall|j: int| 0 <= j < t.len() implies t[j] != '\n' by {
            if j < q.len() {
                assert(t[j] == q[j]);
            } else if j >= q.len() + 2 {
                assert(t[j] == rest[j - q.len() - 2]);
            }
        }
    }
}

/// A bracketed list of well-formed items is a well-shaped token.
pub proof fn lemma_array_tok_shape(items: Seq<Seq<char>>)
    requires
        forall|i: int| 0 <= i < items.len() ==> item_text(#[trigger] items[i]),
    ensures
        tok_shape(array_tok(items)),
        array_tok(items).len() >= 2,
        array_tok(items)[0] == '[',
        array_tok(items)[array_tok(items).len() - 1] == ']',
    {
    lemma_items_body_text(items);
    let t = array_tok(items);
    let body = items_body(items);
    assert(t[0] == '[');
    assert(t[t.len() - 1] == ']');
    assert forall|j: int| 0 <= j < t.len() implies t[j] != '\n' by {
        if j != 0 && j != t.len() - 1 {
            assert(t[j] == body[j - 1]);
        }
    }
}

// ---------------------------------------------------------------------------
// Reading the rendered lines back
// ---------------------------------------------------------------------------

/// The target header line reads back as the target header.
pub proof fn lemma_classify_target_header()
    ensures
        classify_line("[[target]]"@) == LineKind::TargetHeader,
{
    lemma_headers_shape();
    let t = "[[target]]"@;
    lemma_trim_id(t);
    assert(t[0] != '#');
}

/// The metadata header line reads back as the metadata header.
pub proof fn lemma_classify_meta_header()
    ensures
        classify_line("[target.metadata]"@) == LineKind::MetaHeader,
{
    lemma_headers_shape();
    let t = "[target.metadata]"@;
    lemma_trim_id(t);
    assert(t[0] != '#');
}

/// A `key = value` line with well-shaped key and token reads back as that
/// key and the token's value.
pub proof fn lemma_classify_kv(key: Seq<char>, tok: Seq<char>)
    requires
        key_shape(key),
        tok_shape(tok),
    ensures
        classify_line(kv_line(key, tok)) == (match parse_value(tok) {
            Some(v) => LineKind::KeyVal(key, v),
            None => LineKind::Malformed,
        }),
{
    lemma_headers_shape();
    let sep = seq![' ', '=', ' '];
    let t = kv_line(key, tok);
    assert(t =~= key + sep + tok);
    let kl = key.len() as int;
    // character layout of the line
    assert(t[0] == key[0]);
    assert(t.len() == kl + 3 + tok.len());
    assert(t[t.len() - 1] == tok[tok.len() - 1]);
    assert(t[kl] == ' ');
    assert(t[kl + 1] == '=');
    assert(t[kl + 2] == ' ');
    assert(forall|j: int| 0 <= j < kl ==> t[j] == key[j]);
    assert(forall|j: int| kl + 3 <= j < t.len() ==> t[j] == tok[j - kl - 3]);
    // the line is already trimmed
    lemma_trim_id(t);
    // it is no header: both headers are free of '='
    assert(t != "[[target]]"@) by {
        if t == "[[target]]"@ {
            assert("[[target]]"@[kl + 1] == '=');
        }
    }
    assert(t != "[target.metadata]"@) by {
        if t == "[target.metadata]"@ {
            assert("[target.metadata]"@[kl + 1] == '=');
        }
    }
    // the first '=' stands just after the key
    lemma_find_char_is(t, '=', kl + 1);
    // the key side trims back to the key
    assert(t.take(kl + 1) =~= key + seq![' ']);
    lemma_trim_end_drop(key, ' ');
    assert(trim_start(key + seq![' ']) == key + seq![' ']);
    assert(trim(t.take(kl + 1)) == trim_end(key));
    assert(trim_end(key) == key);
    // the value side trims back to the token
    assert(t.skip(kl + 2) =~= seq![' '] + tok);
    lemma_trim_start_drop(tok, ' ');
    assert(trim_start(seq![' '] + tok) == trim_start(tok));
    assert(trim_start(tok) == tok);
    assert(trim_end(tok) == tok);
    assert(trim(t.skip(kl + 2)) == tok);
}

/// A quoted token reads back as the string between the quotes.
pub proof fn lemma_parse_value_quote(v: Seq<char>)
    ensures
        parse_value(quote_tok(v)) == Some(ManifestValue::VStr(v)),
{
    let t = quote_tok(v);
    assert(t[0] == '"');
    assert(t[t.len() - 1] == '"');
    assert(t.subrange(1, t.len() - 1) =~= v);
}

/// A rendered number reads back as that number.
pub proof fn lemma_parse_value_int(n: u64)
    ensures
        parse_value(render_dec(n)) == Some(ManifestValue::VInt(n)),
{
    lemma_render_dec(n);
    lemma_dec_tok_shape(n);
    let t = render_dec(n);
    assert(t[0] != '"');
    assert(t[0] != '[');
    if t.len() >= 2 {
        assert(is_digit(t[t.len() - 1]));
        assert(t[t.len() - 1] != '"');
    }
}

/// Lists whose parts read back alike parse alike.
proof fn lemma_items_congruent(p1: Seq<Seq<char>>, p2: Seq<Seq<char>>)
    requires
        p1.len() == p2.len(),
        forall|i: int| 0 <= i < p1.len() ==> parse_item(#[trigger] p1[i]) == parse_item(p2[i]),
    ensures
        parse_items_list(p1) == parse_items_list(p2),
    decreases p1.len(),
{
    if p1.len() > 0 {
        assert(forall|i: int| 0 <= i < p1.len() - 1 ==> p1.drop_last()[i] == p1[i]);
        assert(forall|i: int| 0 <= i < p2.len() - 1 ==> p2.drop_last()[i] == p2[i]);
        lemma_items_congruent(p1.drop_last(), p2.drop_last());
        assert(parse_item(p1.last()) == parse_item(p2.last()));
    }
}

/// Parsing a part list with one part put in front.
proof fn lemma_items_list_prepend(a: Seq<char>, parts: Seq<Seq<char>>)
    ensures
        parse_items_list(seq![a] + parts) == (match (parse_item(a), parse_items_list(parts)) {
            (Some(u), Some(us)) => Some(seq![u] + us),
            _ => None::<Seq<Seq<char>>>,
        }),
    decreases parts.len(),
{
    let whole = seq![a] + parts;
    if parts.len() == 0 {
        assert(whole.drop_last() =~= Seq::<Seq<char>>::empty());
        assert(whole.last() == a);
        assert(parse_items_list(Seq::<Seq<char>>::empty()) == Some(Seq::<Seq<char>>::empty()));
        match parse_item(a) {
            Some(u) => {
                assert(Seq::<Seq<char>>::empty() + seq![u] =~= seq![u]);
                assert(parse_items_list(whole) == Some(seq![u]));
                assert(seq![u] =~= seq![u] + Seq::<Seq<char>>::empty());
            },
            None => {},
        }
    } else {
        assert(whole.drop_last() =~= seq![a] + parts.drop_last());
        assert(whole.last() == parts.last());
        lemma_items_list_prepend(a, parts.drop_last());
        match (parse_item(a), parse_items_list(parts.drop_last()), parse_item(parts.last())) {
            (Some(u), Some(us), Some(ul)) => {
                assert(parse_items_list(whole) == Some(seq![u] + us + seq![ul]));
                assert(parse_items_list(parts) == Some(us + seq![ul]));
                assert(seq![u] + us + seq![ul] =~= seq![u] + (us + seq![ul]));
            },
            _ => {},
        }
    }
}

/// A quoted item, possibly led by one space, reads back as the item.
proof fn lemma_parse_item_quote(v: Seq<char>, spaced: bool)
    ensures
        parse_item(
            if spaced {
                seq![' '] + quote_tok(v)
            } else {
                quote_tok(v)
            },
        ) == Some(v),
{
    let q = quote_tok(v);
    assert(q[0] == '"');
    assert(q[q.len() - 1] == '"');
    assert(trim_start(q) == q);
    assert(trim_end(q) == q);
    if spaced {
        lemma_trim_start_drop(q, ' ');
        assert(trim(seq![' '] + q) == q);
    }
    assert(q.subrange(1, q.len() - 1) =~= v);
}

/// A quoted comma-free item holds no comma at all.
proof fn lemma_quote_tok_no_comma(v: Seq<char>)
    requires
        item_text(v),
    ensures
        find_char(quote_tok(v), ',') == -1,
{
    let q = quote_tok(v);
    assert forall|j: int| 0 <= j < q.len() implies q[j] != ',' by {
        if j != 0 && j != q.len() - 1 {
            assert(q[j] == v[j - 1]);
        }
    }
    lemma_find_char_none(q, ',');
}

/// The body of a nonempty item list splits at its commas into the quoted
/// items and reads back as the items.
proof fn lemma_items_body_parses(items: Seq<Seq<char>>)
    requires
        items.len() > 0,
        forall|i: int| 0 <= i < items.len() ==> item_text(#[trigger] items[i]),
    ensures
        parse_items_list(split_at_char(items_body(items), ',')) == Some(items),
    decreases items.len(),
{
    let body = items_body(items);
    if items.len() == 1 {
        lemma_quote_tok_no_comma(items[0]);
        lemma_split_single(body, ',');
        assert(split_at_char(body, ',') == seq![quote_tok(items[0])]);
        lemma_parse_item_quote(items[0], false);
        assert(seq![quote_tok(items[0])].drop_last() =~= Seq::<Seq<char>>::empty());
        assert(parse_items_list(Seq::<Seq<char>>::empty()) == Some(Seq::<Seq<char>>::empty()));
        assert(Seq::<Seq<char>>::empty() + seq![items[0]] =~= seq![items[0]]);
        assert(parse_items_list(seq![quote_tok(items[0])]) == Some(seq![items[0]]));
        assert(seq![items[0]] =~= items);
    } else {
        let rest = items.drop_first();
        assert(forall|i: int| 0 <= i < rest.len() ==> item_text(#[trigger] rest[i]));
        lemma_items_body_parses(rest);
        let q0 = quote_tok(items[0]);
        let rest_body = items_body(rest);
        assert(body =~= q0 + seq![','] + (seq![' '] + rest_body));
        lemma_quote_tok_no_comma(items[0]);
        lemma_split_cons(q0, seq![' '] + rest_body, ',');
        assert(split_at_char(body, ',') == seq![q0] + split_at_char(seq![' '] + rest_body, ','));
        // a leading space on the first part changes nothing after trimming
        let sub = split_at_char(rest_body, ',');
        let sub_spaced = split_at_char(seq![' '] + rest_body, ',');
        assert(sub.len() > 0 && sub_spaced.len() > 0) by {
            lemma_split_lengths(rest_body, ',');
            lemma_split_lengths(seq![' '] + rest_body, ',');
        }
        assert(sub_spaced =~= seq![seq![' '] + sub[0]] + sub.drop_first()) by {
            lemma_split_prepend_space(rest_body, ',');
        }
        assert(parse_items_list(sub_spaced) == parse_items_list(sub)) by {
            lemma_split_items_first_space(rest, sub, sub_spaced);
        }
        lemma_items_list_prepend(q0, sub_spaced);
        lemma_parse_item_quote(items[0], false);
        assert(parse_items_list(split_at_char(body, ',')) == Some(seq![items[0]] + rest));
        assert(seq![items[0]] + rest =~= items);
    }
}

/// How many parts a split yields: always at least one.
proof fn lemma_split_lengths(s: Seq<char>, c: char)
    ensures
        split_at_char(s, c).len() >= 1,
    decreases s.len(),
{
}

/// Splitting with one space put in front: the space lands on the first
/// part.
proof fn lemma_split_prepend_space(x: Seq<char>, c: char)
    requires
        c != ' ',
    ensures
        split_at_char(seq![' '] + x, c) == seq![seq![' '] + split_at_char(x, c)[0]]
            + split_at_char(x, c).drop_first(),
{
    lemma_split_lengths(x, c);
    let sx = seq![' '] + x;
    lemma_find_char(x, c);
    lemma_find_char_none(seq![' '], c);
    lemma_find_char_append(seq![' '], x, c);
    let i = find_char(x, c);
    if i < 0 {
        assert(split_at_char(sx, c) == seq![sx]);
        assert(split_at_char(x, c) == seq![x]);
        assert(seq![seq![' '] + x] + split_at_char(x, c).drop_first() =~= seq![sx]);
    } else {
        assert(find_char(sx, c) == i + 1);
        assert(sx.take(i + 1) =~= seq![' '] + x.take(i));
        assert(sx.skip(i + 2) =~= x.skip(i + 1));
        assert(split_at_char(sx, c) == seq![seq![' '] + x.take(i)] + split_at_char(
            x.skip(i + 1),
            c,
        ));
        assert(split_at_char(x, c) == seq![x.take(i)] + split_at_char(x.skip(i + 1), c));
        assert(split_at_char(x, c)[0] == x.take(i));
        assert(split_at_char(x, c).drop_first() =~= split_at_char(x.skip(i + 1), c));
        assert(seq![seq![' '] + x.take(i)] + split_at_char(x.skip(i + 1), c) =~= seq![
            seq![' '] + split_at_char(x, c)[0],
        ] + split_at_char(x, c).drop_first());
    }
}

/// Adding a space in front of the first part does not change what the
/// parts read back as.
proof fn lemma_split_items_first_space(
    rest: Seq<Seq<char>>,
    sub: Seq<Seq<char>>,
    sub_spaced: Seq<Seq<char>>,
)
    requires
        sub.len() > 0,
        sub_spaced =~= seq![seq![' '] + sub[0]] + sub.drop_first(),
    ensures
        parse_items_list(sub_spaced) == parse_items_list(sub),
{
    assert(parse_item(seq![' '] + sub[0]) == parse_item(sub[0])) by {
        lemma_trim_start_drop(sub[0], ' ');
    }
    assert(sub =~= seq![sub[0]] + sub.drop_first());
    assert(sub_spaced.len() == sub.len());
    assert(forall|i: int|
        0 <= i < sub.len() ==> parse_item(#[trigger] sub_spaced[i]) == parse_item(sub[i]));
    lemma_items_congruent(sub_spaced, sub);
}

/// A bracketed list of well-formed items reads back as those items.
pub proof fn lemma_parse_value_array(items: Seq<Seq<char>>)
    requires
        forall|i: int| 0 <= i < items.len() ==> item_text(#[trigger] items[i]),
    ensures
        parse_value(array_tok(items)) == Some(ManifestValue::VArr(items)),
{
    lemma_array_tok_shape(items);
    let t = array_tok(items);
    let body = items_body(items);
    assert(t[0] != '"');
    assert(t.subrange(1, t.len() - 1) =~= body);
    if items.len() == 0 {
        assert(body =~= Seq::<char>::empty());
        assert(trim(body).len() == 0);
        assert(parse_items(body) == Some(Seq::<Seq<char>>::empty()));
        assert(Seq::<Seq<char>>::empty() =~= items);
    } else {
        assert(body.len() >= 2) by {
            lemma_quote_tok_shape_len(items);
        }
        assert(body[0] == '"') by {
            lemma_items_body_first(items);
        }
        assert(trim(body).len() != 0) by {
            lemma_trim_of_body(items);
        }
        lemma_items_body_parses(items);
    }
}

/// A nonempty item list's body starts with a quote.
proof fn lemma_items_body_first(items: Seq<Seq<char>>)
    requires
        items.len() > 0,
    ensures
        items_body(items)[0] == '"',
        items_body(items)[items_body(items).len() - 1] == '"',
        items_body(items).len() >= 2,
    decreases items.len(),
{
    if items.len() == 1 {
    } else {
        lemma_items_body_first(items.drop_first());
        let q = quote_tok(items[0]);
        let rest = items_body(items.drop_first());
        let body = items_body(items);
        assert(body =~= q + seq![',', ' '] + rest);
        assert(body[0] == q[0]);
        assert(body[body.len() - 1] == rest[rest.len() - 1]);
    }
}

/// Same, packaged for the length bound.
proof fn lemma_quote_tok_shape_len(items: Seq<Seq<char>>)
    requires
        items.len() > 0,
    ensures
        items_body(items).len() >= 2,
{
    lemma_items_body_first(items);
}

/// The body of a nonempty item list does not trim away.
proof fn lemma_trim_of_body(items: Seq<Seq<char>>)
    requires
        items.len() > 0,
    ensures
        trim(items_body(items)).len() != 0,
{
    lemma_items_body_first(items);
    let body = items_body(items);
    assert(!is_space(body[0]));
    assert(!is_space(body[body.len() - 1]));
    lemma_trim_id(body);
}

// ---------------------------------------------------------------------------
// Reading whole blocks back
// ---------------------------------------------------------------------------

/// Reading lines distributes over concatenation.
pub proof fn lemma_parse_lines_append(l1: Seq<Seq<char>>, l2: Seq<Seq<char>>, st: ParseState)
    ensures
        parse_lines(l1 + l2, st) == (match parse_lines(l1, st) {
            Some(st1) => parse_lines(l2, st1),
            None => None::<ParseState>,
        }),
    decreases l1.len(),
{
    if l1.len() == 0 {
        assert(l1 + l2 =~= l2);
    } else {
        assert((l1 + l2)[0] == l1[0]);
        assert((l1 + l2).drop_first() =~= l1.drop_first() + l2);
        match step_line(st, classify_line(l1[0])) {
            Some(st2) => {
                lemma_parse_lines_append(l1.drop_first(), l2, st2);
            },
            None => {},
        }
    }
}

/// Reading one line.
proof fn lemma_parse_one_line(l: Seq<char>, st: ParseState)
    ensures
        parse_lines(seq![l], st) == step_line(st, classify_line(l)),
{
    assert(seq![l].drop_first() =~= Seq::<Seq<char>>::empty());
    assert(seq![l][0] == l);
    match step_line(st, classify_line(l)) {
        Some(st2) => {
            assert(parse_lines(Seq::<Seq<char>>::empty(), st2) == Some(st2));
        },
        None => {},
    }
}

/// The distinct keys of the grammar: no two of those that one block reads
/// are the same.
proof fn lemma_keys_distinct()
    ensures
        "name"@.len() == 4,
        "author"@.len() == 6,
        "description"@.len() == 11,
        "bundle_id"@.len() == 9,
        "version"@.len() == 7,
        "build_number"@.len() == 12,
        "image_path"@.len() == 10,
        "launch_sound_path"@.len() == 17,
        "assets"@.len() == 6,
{
    reveal_strlit("name");
    reveal_strlit("author");
    reveal_strlit("description");
    reveal_strlit("bundle_id");
    reveal_strlit("version");
    reveal_strlit("build_number");
    reveal_strlit("image_path");
    reveal_strlit("launch_sound_path");
    reveal_strlit("assets");
}

/// The state in which a metadata block with fields `mm` has been read so
/// far, inside the block `pt` of a reader whose finished targets are those
/// of `st`.
pub open spec fn meta_state(st: ParseState, pt: PartialTarget, mm: MetadataView) -> ParseState {
    ParseState {
        done: st.done,
        cur: Some(PartialTarget { metadata: Some(mm), ..pt }),
        in_meta: true,
    }
}

/// Reading one optional string field's line (or no line at all) moves the
/// reader from the state before the field to the state after it.
proof fn lemma_parse_opt_str_field(
    key: Seq<char>,
    v: Option<Seq<char>>,
    before: ParseState,
    after: ParseState,
)
    requires
        key_shape(key),
        before.in_meta,
        before.cur matches Some(p) && p.metadata is Some,
        v matches Some(x) ==> line_text(x) && crate::manifest::step_meta_key(
            before,
            before.cur.unwrap(),
            before.cur.unwrap().metadata.unwrap(),
            key,
            ManifestValue::VStr(x),
        ) == Some(after),
        v is None ==> before == after,
    ensures
        parse_lines(opt_kv(key, v), before) == Some(after),
{
    match v {
        Some(x) => {
            lemma_classify_kv(key, quote_tok(x));
            lemma_quote_tok_shape(x);
            lemma_parse_value_quote(x);
            lemma_parse_one_line(kv_line(key, quote_tok(x)), before);
        },
        None => {
            assert(parse_lines(opt_kv(key, v), before) == Some(before));
        },
    }
}

/// Reading the first half of a rendered metadata block: the header and the
/// five leading string fields.
#[verifier::spinoff_prover]
proof fn lemma_parse_meta_first(m: MetadataView, st: ParseState, pt: PartialTarget)
    requires
        wf_metadata(m),
        st.cur == Some(pt),
        pt.metadata is None,
    ensures
        parse_lines(
            seq!["[target.metadata]"@] + opt_kv("name"@, m.name) + opt_kv("author"@, m.author)
                + opt_kv("description"@, m.description) + opt_kv("bundle_id"@, m.bundle_id)
                + opt_kv("version"@, m.version),
            st,
        ) == Some(
            meta_state(
                st,
                pt,
                MetadataView {
                    name: m.name,
                    author: m.author,
                    description: m.description,
                    bundle_id: m.bundle_id,
                    version: m.version,
                    ..empty_meta()
                },
            ),
        ),
{
    lemma_keys_shape();
    lemma_keys_distinct();
    let header = seq!["[target.metadata]"@];
    let l_name = opt_kv("name"@, m.name);
    let l_author = opt_kv("author"@, m.author);
    let l_desc = opt_kv("description"@, m.description);
    let l_bid = opt_kv("bundle_id"@, m.bundle_id);
    let l_ver = opt_kv("version"@, m.version);
    let m0 = empty_meta();
    let m1 = MetadataView { name: m.name, ..m0 };
    let m2 = MetadataView { author: m.author, ..m1 };
    let m3 = MetadataView { description: m.description, ..m2 };
    let m4 = MetadataView { bundle_id: m.bundle_id, ..m3 };
    let m5 = MetadataView { version: m.version, ..m4 };
    let st0 = meta_state(st, pt, m0);
    let st1 = meta_state(st, pt, m1);
    let st2 = meta_state(st, pt, m2);
    let st3 = meta_state(st, pt, m3);
    let st4 = meta_state(st, pt, m4);
    let st5 = meta_state(st, pt, m5);

    lemma_classify_meta_header();
    lemma_parse_one_line("[target.metadata]"@, st);
    assert(step_line(st, LineKind::MetaHeader) matches Some(s) && s =~~= st0);
    assert(parse_lines(header, st) == Some(st0));

    if m.name is Some {
        assert(crate::manifest::step_meta_key(
            st0,
            st0.cur.unwrap(),
            st0.cur.unwrap().metadata.unwrap(),
            "name"@,
            ManifestValue::VStr(m.name.unwrap()),
        ) matches Some(s) && s =~~= st1);
    } else {
        assert(st0 =~~= st1);
    }
    lemma_parse_opt_str_field("name"@, m.name, st0, st1);

    if m.author is Some {
        assert(crate::manifest::step_meta_key(
            st1,
            st1.cur.unwrap(),
            st1.cur.unwrap().metadata.unwrap(),
            "author"@,
            ManifestValue::VStr(m.author.unwrap()),
        ) matches Some(s) && s =~~= st2);
    } else {
        assert(st1 =~~= st2);
    }
    lemma_parse_opt_str_field("author"@, m.author, st1, st2);

    if m.description is Some {
        assert(crate::manifest::step_meta_key(
            st2,
            st2.cur.unwrap(),
            st2.cur.unwrap().metadata.unwrap(),
            "description"@,
            ManifestValue::VStr(m.description.unwrap()),
        ) matches Some(s) && s =~~= st3);
    } else {
        assert(st2 =~~= st3);
    }
    lemma_parse_opt_str_field("description"@, m.description, st2, st3);

    if m.bundle_id is Some {
        assert(crate::manifest::step_meta_key(
            st3,
            st3.cur.unwrap(),
            st3.cur.unwrap().metadata.unwrap(),
            "bundle_id"@,
            ManifestValue::VStr(m.bundle_id.unwrap()),
        ) matches Some(s) && s =~~= st4);
    } else {
        assert(st3 =~~= st4);
    }
    lemma_parse_opt_str_field("bundle_id"@, m.bundle_id, st3, st4);

    if m.version is Some {
        assert(crate::manifest::step_meta_key(
            st4,
            st4.cur.unwrap(),
            st4.cur.unwrap().metadata.unwrap(),
            "version"@,
            ManifestValue::VStr(m.version.unwrap()),
        ) matches Some(s) && s =~~= st5);
    } else {
        assert(st4 =~~= st5);
    }
    lemma_parse_opt_str_field("version"@, m.version, st4, st5);

    let all = header + l_name + l_author + l_desc + l_bid + l_ver;
    lemma_parse_lines_append(header, l_name + l_author + l_desc + l_bid + l_ver, st);
    assert(all =~= header + (l_name + l_author + l_desc + l_bid + l_ver));
    lemma_parse_lines_append(l_name, l_author + l_desc + l_bid + l_ver, st0);
    assert(l_name + l_author + l_desc + l_bid + l_ver =~= l_name + (l_author + l_desc + l_bid
        + l_ver));
    lemma_parse_lines_append(l_author, l_desc + l_bid + l_ver, st1);
    assert(l_author + l_desc + l_bid + l_ver =~= l_author + (l_desc + l_bid + l_ver));
    lemma_parse_lines_append(l_desc, l_bid + l_ver, st2);
    assert(l_desc + l_bid + l_ver =~= l_desc + (l_bid + l_ver));
    lemma_parse_lines_append(l_bid, l_ver, st3);
    assert(parse_lines(all, st) == Some(st5));
}

/// Reading the second half of a rendered metadata block: the build number
/// and the two path fields.
#[verifier::spinoff_prover]
proof fn lemma_parse_meta_second(m: MetadataView, st: ParseState, pt: PartialTarget, m5: MetadataView)
    requires
        wf_metadata(m),
        st.cur == Some(pt),
        pt.metadata is None,
        m5 == (MetadataView {
            name: m.name,
            author: m.author,
            description: m.description,
            bundle_id: m.bundle_id,
            version: m.version,
            ..empty_meta()
        }),
    ensures
        parse_lines(
            (match m.build_number {
                Some(n) => seq![kv_line("build_number"@, render_dec(n))],
                None => seq![],
            }) + opt_kv("image_path"@, m.image_path) + opt_kv(
                "launch_sound_path"@,
                m.launch_sound_path,
            ),
            meta_state(st, pt, m5),
        ) == Some(meta_state(st, pt, m)),
{
    lemma_keys_shape();
    lemma_keys_distinct();
    let l_bn: Seq<Seq<char>> = match m.build_number {
        Some(n) => seq![kv_line("build_number"@, render_dec(n))],
        None => seq![],
    };
    let l_img = opt_kv("image_path"@, m.image_path);
    let l_snd = opt_kv("launch_sound_path"@, m.launch_sound_path);
    let m6 = MetadataView { build_number: m.build_number, ..m5 };
    let m7 = MetadataView { image_path: m.image_path, ..m6 };
    let m8 = MetadataView { launch_sound_path: m.launch_sound_path, ..m7 };
    assert(m8 =~= m);
    let st5 = meta_state(st, pt, m5);
    let st6 = meta_state(st, pt, m6);
    let st7 = meta_state(st, pt, m7);
    let st8 = meta_state(st, pt, m8);

    match m.build_number {
        Some(n) => {
            lemma_dec_tok_shape(n);
            lemma_classify_kv("build_number"@, render_dec(n));
            lemma_parse_value_int(n);
            lemma_parse_one_line(kv_line("build_number"@, render_dec(n)), st5);
            assert(step_line(
                st5,
                LineKind::KeyVal("build_number"@, ManifestValue::VInt(n)),
            ) matches Some(s) && s =~~= st6);
            assert(parse_lines(l_bn, st5) == Some(st6));
        },
        None => {
            assert(parse_lines(l_bn, st5) == Some(st5));
            assert(st5 =~~= st6);
        },
    }

    if m.image_path is Some {
        assert(crate::manifest::step_meta_key(
            st6,
            st6.cur.unwrap(),
            st6.cur.unwrap().metadata.unwrap(),
            "image_path"@,
            ManifestValue::VStr(m.image_path.unwrap()),
        ) matches Some(s) && s =~~= st7);
    } else {
        assert(st6 =~~= st7);
    }
    lemma_parse_opt_str_field("image_path"@, m.image_path, st6, st7);

    if m.launch_sound_path is Some {
        assert(crate::manifest::step_meta_key(
            st7,
            st7.cur.unwrap(),
            st7.cur.unwrap().metadata.unwrap(),
            "launch_sound_path"@,
            ManifestValue::VStr(m.launch_sound_path.unwrap()),
        ) matches Some(s) && s =~~= st8);
    } else {
        assert(st7 =~~= st8);
    }
    lemma_parse_opt_str_field("launch_sound_path"@, m.launch_sound_path, st7, st8);

    let all = l_bn + l_img + l_snd;
    lemma_parse_lines_append(l_bn, l_img + l_snd, st5);
    assert(all =~= l_bn + (l_img + l_snd));
    lemma_parse_lines_append(l_img, l_snd, st6);
    assert(parse_lines(all, st5) == Some(st8));
    assert(st8 =~~= meta_state(st, pt, m));
}

/// Reading a rendered metadata block fills in exactly the block's fields.
proof fn lemma_parse_meta_lines(m: MetadataView, st: ParseState, pt: PartialTarget)
    requires
        wf_metadata(m),
        st.cur == Some(pt),
        pt.metadata is None,
    ensures
        parse_lines(meta_lines(m), st) == Some(
            ParseState {
                done: st.done,
                cur: Some(PartialTarget { metadata: Some(m), ..pt }),
                in_meta: true,
            },
        ),
{
    let first = seq!["[target.metadata]"@] + opt_kv("name"@, m.name) + opt_kv(
        "author"@,
        m.author,
    ) + opt_kv("description"@, m.description) + opt_kv("bundle_id"@, m.bundle_id) + opt_kv(
        "version"@,
        m.version,
    );
    let second = (match m.build_number {
        Some(n) => seq![kv_line("build_number"@, render_dec(n))],
        None => seq![],
    }) + opt_kv("image_path"@, m.image_path) + opt_kv("launch_sound_path"@, m.launch_sound_path);
    assert(meta_lines(m) =~= first + second);
    let m5 = MetadataView {
        name: m.name,
        author: m.author,
        description: m.description,
        bundle_id: m.bundle_id,
        version: m.version,
        ..empty_meta()
    };
    lemma_parse_meta_first(m, st, pt);
    lemma_parse_meta_second(m, st, pt, m5);
    lemma_parse_lines_append(first, second, st);
    assert(parse_lines(meta_lines(m), st) == Some(meta_state(st, pt, m)));
}

/// Reading one rendered target block appends exactly that target.
#[verifier::spinoff_prover]
proof fn lemma_parse_target_lines(t: TargetView, st: ParseState)
    requires
        wf_target(t),
        finalize(st) is Some,
    ensures
        parse_lines(target_lines(t), st) matches Some(st2) && finalize(st2) == Some(
            finalize(st).unwrap() + seq![t],
        ),
{
    lemma_keys_shape();
    lemma_keys_distinct();
    let d = finalize(st).unwrap();
    let pt0 = PartialTarget { name: None, assets: None, metadata: None };
    let st_h = ParseState { done: d, cur: Some(pt0), in_meta: false };
    let pt_n = PartialTarget { name: Some(t.name), assets: None, metadata: None };
    let st_n = ParseState { done: d, cur: Some(pt_n), in_meta: false };

    // the header opens a fresh block
    lemma_classify_target_header();
    lemma_parse_one_line("[[target]]"@, st);
    assert(step_line(st, LineKind::TargetHeader) matches Some(s) && s =~~= st_h);

    // the name line names it
    lemma_quote_tok_shape(t.name);
    lemma_classify_kv("name"@, quote_tok(t.name));
    lemma_parse_value_quote(t.name);
    lemma_parse_one_line(kv_line("name"@, quote_tok(t.name)), st_h);
    assert(step_line(
        st_h,
        LineKind::KeyVal("name"@, ManifestValue::VStr(t.name)),
    ) matches Some(s) && s =~~= st_n);

    // the assets line, when there is one
    let l_assets: Seq<Seq<char>> = match t.assets {
        Some(items) => seq![kv_line("assets"@, array_tok(items))],
        None => seq![],
    };
    let pt_a = PartialTarget { name: Some(t.name), assets: t.assets, metadata: None };
    let st_a = ParseState { done: d, cur: Some(pt_a), in_meta: false };
    match t.assets {
        Some(items) => {
            lemma_array_tok_shape(items);
            lemma_classify_kv("assets"@, array_tok(items));
            lemma_parse_value_array(items);
            lemma_parse_one_line(kv_line("assets"@, array_tok(items)), st_n);
            assert(step_line(
                st_n,
                LineKind::KeyVal("assets"@, ManifestValue::VArr(items)),
            ) matches Some(s) && s =~~= st_a);
            assert(parse_lines(l_assets, st_n) == Some(st_a));
        },
        None => {
            assert(parse_lines(l_assets, st_n) == Some(st_n));
            assert(st_n =~~= st_a);
        },
    }

    // the metadata block, when there is one
    let l_meta: Seq<Seq<char>> = match t.metadata {
        Some(mm) => meta_lines(mm),
        None => seq![],
    };
    let st_m: ParseState = match t.metadata {
        Some(mm) => ParseState {
            done: d,
            cur: Some(PartialTarget { metadata: Some(mm), ..pt_a }),
            in_meta: true,
        },
        None => st_a,
    };
    match t.metadata {
        Some(mm) => {
            lemma_parse_meta_lines(mm, st_a, pt_a);
        },
        None => {
            assert(parse_lines(l_meta, st_a) == Some(st_a));
        },
    }
    assert(parse_lines(l_meta, st_a) == Some(st_m));

    // chain the pieces
    let head = seq!["[[target]]"@, kv_line("name"@, quote_tok(t.name))];
    assert(target_lines(t) =~= head + l_assets + l_meta);
    assert(head =~= seq!["[[target]]"@] + seq![kv_line("name"@, quote_tok(t.name))]);
    lemma_parse_lines_append(seq!["[[target]]"@], seq![kv_line("name"@, quote_tok(t.name))], st);
    assert(parse_lines(head, st) == Some(st_n));
    lemma_parse_lines_append(head, l_assets + l_meta, st);
    assert(head + l_assets + l_meta =~= head + (l_assets + l_meta));
    lemma_parse_lines_append(l_assets, l_meta, st_n);
    assert(parse_lines(target_lines(t), st) == Some(st_m));

    // closing the block yields exactly the declared target
    let closed = finalize(st_m);
    assert(closed matches Some(ts2) && ts2 =~= d + seq![
        TargetView {
            name: t.name,
            assets: match st_m.cur {
                Some(p) => p.assets,
                None => None,
            },
            metadata: match st_m.cur {
                Some(p) => p.metadata,
                None => None,
            },
        },
    ]);
    assert(finalize(st_m) matches Some(ts2) && ts2 =~= d + seq![t]) by {
        match st_m.cur {
            Some(p) => {
                assert(TargetView { name: t.name, assets: p.assets, metadata: p.metadata } =~~= t);
            },
            None => {},
        }
    }
}

/// Reading rendered target blocks appends exactly those targets, in order.
proof fn lemma_parse_targets(ts: Seq<TargetView>, st: ParseState)
    requires
        forall|i: int| 0 <= i < ts.len() ==> wf_target(#[trigger] ts[i]),
        finalize(st) is Some,
    ensures
        parse_lines(targets_lines(ts), st) matches Some(stf) && finalize(stf) == Some(
            finalize(st).unwrap() + ts,
        ),
    decreases ts.len(),
{
    if ts.len() == 0 {
        assert(parse_lines(targets_lines(ts), st) == Some(st));
        assert(finalize(st).unwrap() + ts =~= finalize(st).unwrap());
    } else {
        lemma_parse_target_lines(ts[0], st);
        let st2 = parse_lines(target_lines(ts[0]), st).unwrap();
        assert(forall|i: int|
            0 <= i < ts.drop_first().len() ==> wf_target(#[trigger] ts.drop_first()[i]));
        lemma_parse_targets(ts.drop_first(), st2);
        lemma_parse_lines_append(target_lines(ts[0]), targets_lines(ts.drop_first()), st);
        let stf = parse_lines(targets_lines(ts.drop_first()), st2).unwrap();
        assert(finalize(stf) == Some(finalize(st2).unwrap() + ts.drop_first()));
        assert(finalize(st).unwrap() + seq![ts[0]] + ts.drop_first() =~= finalize(st).unwrap()
            + ts);
    }
}

/// A `key = value` line fits on one line.
proof fn lemma_kv_line_text(key: Seq<char>, tok: Seq<char>)
    requires
        key_shape(key),
        tok_shape(tok),
    ensures
        find_char(kv_line(key, tok), '\n') == -1,
{
    let t = kv_line(key, tok);
    assert forall|j: int| 0 <= j < t.len() implies t[j] != '\n' by {
        if j < key.len() {
            assert(t[j] == key[j]);
        } else if j >= key.len() + 3 {
            assert(t[j] == tok[j - key.len() - 3]);
        } else {
            assert(t[j] == seq![' ', '=', ' '][j - key.len()]);
        }
    }
    lemma_find_char_none(t, '\n');
}

/// Every line a metadata block declares fits on one line.
#[verifier::spinoff_prover]
proof fn lemma_meta_lines_text(m: MetadataView)
    requires
        wf_metadata(m),
    ensures
        forall|i: int|
            0 <= i < meta_lines(m).len() ==> find_char(#[trigger] meta_lines(m)[i], '\n') == -1,
{
    lemma_keys_shape();
    lemma_headers_shape();
    let ls = meta_lines(m);
    assert forall|i: int| 0 <= i < ls.len() implies find_char(ls[i], '\n') == -1 by {
        if ls[i] == "[target.metadata]"@ {
            lemma_find_char_none("[target.metadata]"@, '\n');
        } else {
            lemma_meta_line_is_kv(m, i);
        }
    }
}

/// Any non-header line of a metadata block is one of its `key = value`
/// lines, and fits on one line.
#[verifier::spinoff_prover]
proof fn lemma_meta_line_is_kv(m: MetadataView, i: int)
    requires
        wf_metadata(m),
        0 <= i < meta_lines(m).len(),
        meta_lines(m)[i] != "[target.metadata]"@,
    ensures
        find_char(meta_lines(m)[i], '\n') == -1,
{
    lemma_keys_shape();
    let l = meta_lines(m)[i];
    if m.name is Some && l == kv_line("name"@, quote_tok(m.name.unwrap())) {
        lemma_quote_tok_shape(m.name.unwrap());
        lemma_kv_line_text("name"@, quote_tok(m.name.unwrap()));
    } else if m.author is Some && l == kv_line("author"@, quote_tok(m.author.unwrap())) {
        lemma_quote_tok_shape(m.author.unwrap());
        lemma_kv_line_text("author"@, quote_tok(m.author.unwrap()));
    } else if m.description is Some && l == kv_line(
        "description"@,
        quote_tok(m.description.unwrap()),
    ) {
        lemma_quote_tok_shape(m.description.unwrap());
        lemma_kv_line_text("description"@, quote_tok(m.description.unwrap()));
    } else if m.bundle_id is Some && l == kv_line("bundle_id"@, quote_tok(m.bundle_id.unwrap())) {
        lemma_quote_tok_shape(m.bundle_id.unwrap());
        lemma_kv_line_text("bundle_id"@, quote_tok(m.bundle_id.unwrap()));
    } else if m.version is Some && l == kv_line("version"@, quote_tok(m.version.unwrap())) {
        lemma_quote_tok_shape(m.version.unwrap());
        lemma_kv_line_text("version"@, quote_tok(m.version.unwrap()));
    } else if m.build_number is Some && l == kv_line(
        "build_number"@,
        render_dec(m.build_number.unwrap()),
    ) {
        lemma_dec_tok_shape(m.build_number.unwrap());
        lemma_kv_line_text("build_number"@, render_dec(m.build_number.unwrap()));
    } else if m.image_path is Some && l == kv_line(
        "image_path"@,
        quote_tok(m.image_path.unwrap()),
    ) {
        lemma_quote_tok_shape(m.image_path.unwrap());
        lemma_kv_line_text("image_path"@, quote_tok(m.image_path.unwrap()));
    } else if m.launch_sound_path is Some && l == kv_line(
        "launch_sound_path"@,
        quote_tok(m.launch_sound_path.unwrap()),
    ) {
        lemma_quote_tok_shape(m.launch_sound_path.unwrap());
        lemma_kv_line_text("launch_sound_path"@, quote_tok(m.launch_sound_path.unwrap()));
    } else {
        // the index walks the block's concatenation; one of the cases holds
        assert(false);
    }
}

/// Every line a target block declares fits on one line.
#[verifier::spinoff_prover]
proof fn lemma_target_lines_text(t: TargetView)
    requires
        wf_target(t),
    ensures
        forall|i: int|
            0 <= i < target_lines(t).len() ==> find_char(#[trigger] target_lines(t)[i], '\n')
                == -1,
{
    lemma_keys_shape();
    lemma_headers_shape();
    let ls = target_lines(t);
    assert forall|i: int| 0 <= i < ls.len() implies find_char(ls[i], '\n') == -1 by {
        if i == 0 {
            lemma_find_char_none("[[target]]"@, '\n');
        } else if i == 1 {
            lemma_quote_tok_shape(t.name);
            lemma_kv_line_text("name"@, quote_tok(t.name));
        } else if t.assets is Some && i == 2 {
            lemma_array_tok_shape(t.assets.unwrap());
            lemma_kv_line_text("assets"@, array_tok(t.assets.unwrap()));
        } else {
            match t.metadata {
                Some(mm) => {
                    let off: int = if t.assets is Some {
                        3
                    } else {
                        2
                    };
                    assert(ls[i] == meta_lines(mm)[i - off]);
                    lemma_meta_lines_text(mm);
                },
                None => {
                    assert(false);
                },
            }
        }
    }
}

/// Every line a manifest declares fits on one line.
proof fn lemma_targets_lines_text(ts: Seq<TargetView>)
    requires
        forall|i: int| 0 <= i < ts.len() ==> wf_target(#[trigger] ts[i]),
    ensures
        forall|i: int|
            0 <= i < targets_lines(ts).len() ==> find_char(#[trigger] targets_lines(ts)[i], '\n')
                == -1,
    decreases ts.len(),
{
    if ts.len() > 0 {
        lemma_target_lines_text(ts[0]);
        assert(forall|i: int|
            0 <= i < ts.drop_first().len() ==> wf_target(#[trigger] ts.drop_first()[i]));
        lemma_targets_lines_text(ts.drop_first());
        let ls = targets_lines(ts);
        let head = target_lines(ts[0]);
        let rest = targets_lines(ts.drop_first());
        assert forall|i: int| 0 <= i < ls.len() implies find_char(ls[i], '\n') == -1 by {
            if i < head.len() {
                assert(ls[i] == head[i]);
            } else {
                assert(ls[i] == rest[i - head.len()]);
            }
        }
    }
}

// ---------------------------------------------------------------------------
// The round trip
// ---------------------------------------------------------------------------

/// Manifest round-trip: the text that declares a well-formed manifest
/// reads back as exactly that manifest — every declared target, its asset
/// list and its metadata included, in declaration order.
pub proof fn lemma_manifest_round_trip(m: ManifestView)
    requires
        wf_manifest(m),
    ensures
        spec_parse_manifest(render_manifest(m)) == Some(m),
{
    lemma_targets_lines_text(m.targets);
    lemma_lines_of_join(targets_lines(m.targets));
    assert(lines_of(render_manifest(m)) == targets_lines(m.targets) + seq![Seq::<char>::empty()]);
    assert(finalize(init_state()) == Some(Seq::<TargetView>::empty()));
    lemma_parse_targets(m.targets, init_state());
    let stf = parse_lines(targets_lines(m.targets), init_state()).unwrap();
    lemma_parse_lines_append(targets_lines(m.targets), seq![Seq::<char>::empty()], init_state());
    assert(classify_line(Seq::<char>::empty()) == LineKind::Blank);
    lemma_parse_one_line(Seq::<char>::empty(), stf);
    assert(parse_lines(lines_of(render_manifest(m)), init_state()) == Some(stf));
    assert(finalize(stf) == Some(Seq::<TargetView>::empty() + m.targets));
    assert(Seq::<TargetView>::empty() + m.targets =~= m.targets);
    assert(spec_parse_manifest(render_manifest(m)) matches Some(p) && p =~~= m);
}

/// Manifest round-trip, seen through the lookup: parsing the declaring
/// text and then looking any name up returns the same target — the same
/// asset list and metadata — as looking it up among the declared targets.
pub proof fn lemma_round_trip_lookup(m: ManifestView, name: Seq<char>)
    requires
        wf_manifest(m),
    ensures
        spec_parse_manifest(render_manifest(m)) matches Some(p) && spec_get_target(
            p.targets,
            name,
        ) == spec_get_target(m.targets, name),
{
    lemma_manifest_round_trip(m);
}

} // verus!
