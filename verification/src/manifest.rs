use vstd::prelude::*;
use crate::error::Error;
use crate::strutil::{
    find_char, lines_of, parse_dec, split_at_char, trim,
};

verus! {

// ---------------------------------------------------------------------------
// Data model
// ---------------------------------------------------------------------------

/// Display metadata a target may declare.  A field that is absent is simply
/// absent: it is never defaulted, and it produces no output when the
/// metadata file is written.
#[derive(Debug, Clone, Default, PartialEq, Eq)]
pub struct Metadata {
    pub name: Option<String>,
    pub author: Option<String>,
    pub description: Option<String>,
    pub bundle_id: Option<String>,
    pub version: Option<String>,
    pub build_number: Option<u64>,
    pub image_path: Option<String>,
    pub launch_sound_path: Option<String>,
}

/// One declared build target: a name, an ordered asset list, and optional
/// display metadata.
#[derive(Debug, Clone, Default, PartialEq, Eq)]
pub struct Target {
    pub name: String,
    pub assets: Option<Vec<String>>,
    pub metadata: Option<Metadata>,
}

/// The parsed project manifest: the declared targets, in declaration order.
#[derive(Debug, Clone, Default, PartialEq, Eq)]
pub struct Manifest {
    pub targets: Vec<Target>,
}

/// Mathematical model of `Metadata`.
#[verifier::ext_equal]
pub struct MetadataView {
    pub name: Option<Seq<char>>,
    pub author: Option<Seq<char>>,
    pub description: Option<Seq<char>>,
    pub bundle_id: Option<Seq<char>>,
    pub version: Option<Seq<char>>,
    pub build_number: Option<u64>,
    pub image_path: Option<Seq<char>>,
    pub launch_sound_path: Option<Seq<char>>,
}

/// Mathematical model of `Target`.
#[verifier::ext_equal]
pub struct TargetView {
    pub name: Seq<char>,
    pub assets: Option<Seq<Seq<char>>>,
    pub metadata: Option<MetadataView>,
}

/// Mathematical model of `Manifest`.
#[verifier::ext_equal]
pub struct ManifestView {
    pub targets: Seq<TargetView>,
}

impl View for Metadata {
    type V = MetadataView;

    open spec fn view(&self) -> MetadataView {
        MetadataView {
            name: self.name.deep_view(),
            author: self.author.deep_view(),
            description: self.description.deep_view(),
            bundle_id: self.bundle_id.deep_view(),
            version: self.version.deep_view(),
            build_number: self.build_number,
            image_path: self.image_path.deep_view(),
            launch_sound_path: self.launch_sound_path.deep_view(),
        }
    }
}

impl DeepView for Metadata {
    type V = MetadataView;

    open spec fn deep_view(&self) -> MetadataView {
        self.view()
    }
}

impl View for Target {
    type V = TargetView;

    open spec fn view(&self) -> TargetView {
        TargetView {
            name: self.name@,
            assets: self.assets.deep_view(),
            metadata: self.metadata.deep_view(),
        }
    }
}

impl DeepView for Target {
    type V = TargetView;

    open spec fn deep_view(&self) -> TargetView {
        self.view()
    }
}

impl View for Manifest {
    type V = ManifestView;

    open spec fn view(&self) -> ManifestView {
        ManifestView { targets: self.targets.deep_view() }
    }
}

impl DeepView for Manifest {
    type V = ManifestView;

    open spec fn deep_view(&self) -> ManifestView {
        self.view()
    }
}

// ---------------------------------------------------------------------------
// Looking a target up
// ---------------------------------------------------------------------------

/// The first declared target with the given name, if any.
pub open spec fn spec_get_target(ts: Seq<TargetView>, name: Seq<char>) -> Option<TargetView>
    decreases ts.len(),
{
    if ts.len() == 0 {
        None
    } else if ts[0].name == name {
        Some(ts[0])
    } else {
        spec_get_target(ts.drop_first(), name)
    }
}

/// `spec_get_target` returns the first match.
pub proof fn lemma_get_target_at(ts: Seq<TargetView>, name: Seq<char>, i: int)
    requires
        0 <= i < ts.len(),
        ts[i].name == name,
        forall|j: int| 0 <= j < i ==> ts[j].name != name,
    ensures
        spec_get_target(ts, name) == Some(ts[i]),
    decreases ts.len(),
{
    if i > 0 {
        assert(forall|j: int| 0 <= j < i - 1 ==> ts.drop_first()[j] == ts[j + 1]);
        lemma_get_target_at(ts.drop_first(), name, i - 1);
    }
}

/// With no match at all, `spec_get_target` returns None.
pub proof fn lemma_get_target_none(ts: Seq<TargetView>, name: Seq<char>)
    requires
        forall|j: int| 0 <= j < ts.len() ==> ts[j].name != name,
    ensures
        spec_get_target(ts, name) is None,
    decreases ts.len(),
{
    if ts.len() > 0 {
        assert(forall|j: int| 0 <= j < ts.len() - 1 ==> ts.drop_first()[j] == ts[j + 1]);
        lemma_get_target_none(ts.drop_first(), name);
    }
}

impl Manifest {
    /// The first declared target with the given name, if any.
    pub fn get_target<'a>(&'a self, target_name: &str) -> (r: Option<&'a Target>)
        ensures
            match r {
                Some(t) => spec_get_target(self@.targets, target_name@) == Some(t@),
                None => spec_get_target(self@.targets, target_name@) is None,
            },
    {
        let mut i: usize = 0;
        while i < self.targets.len()
            invariant
                0 <= i <= self.targets.len(),
                forall|j: int| 0 <= j < i ==> self@.targets[j].name != target_name@,
                self@.targets.len() == self.targets.len(),
                forall|j: int|
                    0 <= j < self.targets.len() ==> self@.targets[j] == #[trigger] self.targets@[j]@,
            decreases self.targets.len() - i,
        {
            if crate::strutil::str_eq(self.targets[i].name.as_str(), target_name) {
                proof {
                    lemma_get_target_at(self@.targets, target_name@, i as int);
                }
                return Some(&self.targets[i]);
            }
            i += 1;
        }
        proof {
            lemma_get_target_none(self@.targets, target_name@);
        }
        None
    }
}

// ---------------------------------------------------------------------------
// The manifest grammar
// ---------------------------------------------------------------------------
//
// A manifest is read line by line.  Blank lines and lines whose first
// non-blank character is `#` say nothing.  `[[target]]` opens a new target
// block; `[target.metadata]` opens the metadata block of the target being
// read.  Every other meaningful line is `key = value`, where a value is a
// quoted string, a bracketed list of quoted strings, or a decimal number.
// An unknown key is ignored; a known key with a value of the wrong shape is
// an error, as is any line that fits none of these forms.

/// A parsed manifest value.
pub enum ManifestValue {
    VStr(Seq<char>),
    VArr(Seq<Seq<char>>),
    VInt(u64),
}

/// What one line of the manifest says.
pub enum LineKind {
    Blank,
    TargetHeader,
    MetaHeader,
    KeyVal(Seq<char>, ManifestValue),
    Malformed,
}

/// A quoted string token, its quotes stripped.
pub open spec fn parse_item(p: Seq<char>) -> Option<Seq<char>> {
    let t = trim(p);
    if t.len() >= 2 && t[0] == '"' && t.last() == '"' {
        Some(t.subrange(1, t.len() - 1))
    } else {
        None
    }
}

/// Every comma-separated part as a quoted string, all or nothing.
pub open spec fn parse_items_list(parts: Seq<Seq<char>>) -> Option<Seq<Seq<char>>>
    decreases parts.len(),
{
    if parts.len() == 0 {
        Some(seq![])
    } else {
        match (parse_items_list(parts.drop_last()), parse_item(parts.last())) {
            (Some(us), Some(u)) => Some(us + seq![u]),
            _ => None,
        }
    }
}

/// The elements of a bracketed list body.
pub open spec fn parse_items(inner: Seq<char>) -> Option<Seq<Seq<char>>> {
    if trim(inner).len() == 0 {
        Some(seq![])
    } else {
        parse_items_list(split_at_char(inner, ','))
    }
}

/// A trimmed value token.
pub open spec fn parse_value(v: Seq<char>) -> Option<ManifestValue> {
    if v.len() >= 2 && v[0] == '"' && v.last() == '"' {
        Some(ManifestValue::VStr(v.subrange(1, v.len() - 1)))
    } else if v.len() >= 2 && v[0] == '[' && v.last() == ']' {
        match parse_items(v.subrange(1, v.len() - 1)) {
            Some(items) => Some(ManifestValue::VArr(items)),
            None => None,
        }
    } else {
        match parse_dec(v) {
            Some(n) => Some(ManifestValue::VInt(n)),
            None => None,
        }
    }
}

/// What a line says.
pub open spec fn classify_line(line: Seq<char>) -> LineKind {
    let t = trim(line);
    if t.len() == 0 || t[0] == '#' {
        LineKind::Blank
    } else if t == "[[target]]"@ {
        LineKind::TargetHeader
    } else if t == "[target.metadata]"@ {
        LineKind::MetaHeader
    } else {
        let p = find_char(t, '=');
        if p < 0 {
            LineKind::Malformed
        } else {
            let k = trim(t.take(p));
            let v = trim(t.skip(p + 1));
            if k.len() == 0 {
                LineKind::Malformed
            } else {
                match parse_value(v) {
                    Some(val) => LineKind::KeyVal(k, val),
                    None => LineKind::Malformed,
                }
            }
        }
    }
}

// ---------------------------------------------------------------------------
// Reading a manifest, line by line
// ---------------------------------------------------------------------------

/// A target block under construction.
#[verifier::ext_equal]
pub struct PartialTarget {
    pub name: Option<Seq<char>>,
    pub assets: Option<Seq<Seq<char>>>,
    pub metadata: Option<MetadataView>,
}

/// The reader's state: the targets read so far, the block under
/// construction, and whether the reader stands in that block's metadata
/// section.
#[verifier::ext_equal]
pub struct ParseState {
    pub done: Seq<TargetView>,
    pub cur: Option<PartialTarget>,
    pub in_meta: bool,
}

/// Metadata with every field absent.
pub open spec fn empty_meta() -> MetadataView {
    MetadataView {
        name: None,
        author: None,
        description: None,
        bundle_id: None,
        version: None,
        build_number: None,
        image_path: None,
        launch_sound_path: None,
    }
}

/// The state before any line is read.
pub open spec fn init_state() -> ParseState {
    ParseState { done: seq![], cur: None, in_meta: false }
}

/// Closes the block under construction, if any.  A block that never declared
/// a name is an error.
pub open spec fn finalize(st: ParseState) -> Option<Seq<TargetView>> {
    match st.cur {
        None => Some(st.done),
        Some(pt) => match pt.name {
            Some(n) => Some(
                st.done + seq![
                    TargetView { name: n, assets: pt.assets, metadata: pt.metadata },
                ],
            ),
            None => None,
        },
    }
}

/// A `key = value` line inside a metadata block.
pub open spec fn step_meta_key(
    st: ParseState,
    pt: PartialTarget,
    m: MetadataView,
    key: Seq<char>,
    val: ManifestValue,
) -> Option<ParseState> {
    if key == "name"@ {
        match val {
            ManifestValue::VStr(s) => Some(
                ParseState {
                    cur: Some(PartialTarget { metadata: Some(MetadataView { name: Some(s), ..m }), ..pt }),
                    ..st
                },
            ),
            _ => None,
        }
    } else if key == "author"@ {
        match val {
            ManifestValue::VStr(s) => Some(
                ParseState {
                    cur: Some(
                        PartialTarget { metadata: Some(MetadataView { author: Some(s), ..m }), ..pt },
                    ),
                    ..st
                },
            ),
            _ => None,
        }
    } else if key == "description"@ {
        match val {
            ManifestValue::VStr(s) => Some(
                ParseState {
                    cur: Some(
                        PartialTarget {
                            metadata: Some(MetadataView { description: Some(s), ..m }),
                            ..pt
                        },
                    ),
                    ..st
                },
            ),
            _ => None,
        }
    } else if key == "bundle_id"@ {
        match val {
            ManifestValue::VStr(s) => Some(
                ParseState {
                    cur: Some(
                        PartialTarget { metadata: Some(MetadataView { bundle_id: Some(s), ..m }), ..pt },
                    ),
                    ..st
                },
            ),
            _ => None,
        }
    } else if key == "version"@ {
        match val {
            ManifestValue::VStr(s) => Some(
                ParseState {
                    cur: Some(
                        PartialTarget { metadata: Some(MetadataView { version: Some(s), ..m }), ..pt },
                    ),
                    ..st
                },
            ),
            _ => None,
        }
    } else if key == "build_number"@ {
        match val {
            ManifestValue::VInt(n) => Some(
                ParseState {
                    cur: Some(
                        PartialTarget {
                            metadata: Some(MetadataView { build_number: Some(n), ..m }),
                            ..pt
                        },
                    ),
                    ..st
                },
            ),
            _ => None,
        }
    } else if key == "image_path"@ {
        match val {
            ManifestValue::VStr(s) => Some(
                ParseState {
                    cur: Some(
                        PartialTarget { metadata: Some(MetadataView { image_path: Some(s), ..m }), ..pt },
                    ),
                    ..st
                },
            ),
            _ => None,
        }
    } else if key == "launch_sound_path"@ {
        match val {
            ManifestValue::VStr(s) => Some(
                ParseState {
                    cur: Some(
                        PartialTarget {
                            metadata: Some(MetadataView { launch_sound_path: Some(s), ..m }),
                            ..pt
                        },
                    ),
                    ..st
                },
            ),
            _ => None,
        }
    } else {
        Some(st)
    }
}

/// A `key = value` line inside a target block.
pub open spec fn step_target_key(
    st: ParseState,
    pt: PartialTarget,
    key: Seq<char>,
    val: ManifestValue,
) -> Option<ParseState> {
    if key == "name"@ {
        match val {
            ManifestValue::VStr(s) => Some(
                ParseState { cur: Some(PartialTarget { name: Some(s), ..pt }), ..st },
            ),
            _ => None,
        }
    } else if key == "assets"@ {
        match val {
            ManifestValue::VArr(items) => Some(
                ParseState { cur: Some(PartialTarget { assets: Some(items), ..pt }), ..st },
            ),
            _ => None,
        }
    } else {
        Some(st)
    }
}

/// One line applied to the reader's state.
pub open spec fn step_line(st: ParseState, k: LineKind) -> Option<ParseState> {
    match k {
        LineKind::Blank => Some(st),
        LineKind::TargetHeader => match finalize(st) {
            Some(done) => Some(
                ParseState {
                    done,
                    cur: Some(PartialTarget { name: None, assets: None, metadata: None }),
                    in_meta: false,
                },
            ),
            None => None,
        },
        LineKind::MetaHeader => match st.cur {
            Some(pt) => Some(
                ParseState {
                    cur: Some(
                        PartialTarget {
                            metadata: Some(
                                match pt.metadata {
                                    Some(m) => m,
                                    None => empty_meta(),
                                },
                            ),
                            ..pt
                        },
                    ),
                    in_meta: true,
                    ..st
                },
            ),
            None => None,
        },
        LineKind::KeyVal(key, val) => match st.cur {
            None => Some(st),
            Some(pt) => if st.in_meta {
                let m = match pt.metadata {
                    Some(m) => m,
                    None => empty_meta(),
                };
                step_meta_key(st, pt, m, key, val)
            } else {
                step_target_key(st, pt, key, val)
            },
        },
        LineKind::Malformed => None,
    }
}

/// The lines applied in order.
pub open spec fn parse_lines(ls: Seq<Seq<char>>, st: ParseState) -> Option<ParseState>
    decreases ls.len(),
{
    if ls.len() == 0 {
        Some(st)
    } else {
        match step_line(st, classify_line(ls[0])) {
            Some(st2) => parse_lines(ls.drop_first(), st2),
            None => None,
        }
    }
}

/// What manifest text declares, or None when it is malformed.
pub open spec fn spec_parse_manifest(text: Seq<char>) -> Option<ManifestView> {
    match parse_lines(lines_of(text), init_state()) {
        Some(st) => match finalize(st) {
            Some(ts) => Some(ManifestView { targets: ts }),
            None => None,
        },
        None => None,
    }
}

// ---------------------------------------------------------------------------
// The executable parser
// ---------------------------------------------------------------------------

/// Executable form of `ManifestValue`.
pub enum ManifestValueExec {
    VStr(String),
    VArr(Vec<String>),
    VInt(u64),
}

/// Executable form of `LineKind`.
pub enum LineKindExec {
    Blank,
    TargetHeader,
    MetaHeader,
    KeyVal(String, ManifestValueExec),
    Malformed,
}

impl View for ManifestValueExec {
    type V = ManifestValue;

    open spec fn view(&self) -> ManifestValue {
        match self {
            ManifestValueExec::VStr(s) => ManifestValue::VStr(s@),
            ManifestValueExec::VArr(items) => ManifestValue::VArr(items.deep_view()),
            ManifestValueExec::VInt(n) => ManifestValue::VInt(*n),
        }
    }
}

impl View for LineKindExec {
    type V = LineKind;

    open spec fn view(&self) -> LineKind {
        match self {
            LineKindExec::Blank => LineKind::Blank,
            LineKindExec::TargetHeader => LineKind::TargetHeader,
            LineKindExec::MetaHeader => LineKind::MetaHeader,
            LineKindExec::KeyVal(k, v) => LineKind::KeyVal(k@, v@),
            LineKindExec::Malformed => LineKind::Malformed,
        }
    }
}

/// When one part of a list is not a quoted string, the whole list fails.
proof fn lemma_items_list_fail(parts: Seq<Seq<char>>, i: int)
    requires
        0 <= i < parts.len(),
        parse_item(parts[i]) is None,
    ensures
        parse_items_list(parts) is None,
    decreases parts.len(),
{
    if i < parts.len() - 1 {
        assert(parts.drop_last()[i] == parts[i]);
        lemma_items_list_fail(parts.drop_last(), i);
    }
}

/// Reads the body of a bracketed list.
fn parse_items_exec(inner: &str) -> (r: Option<Vec<String>>)
    ensures
        r.deep_view() == parse_items(inner@),
{
    let t = crate::strutil::trim_slice(inner);
    if t.unicode_len() == 0 {
        return Some(Vec::new());
    }
    let parts = crate::strutil::split_char(inner, ',');
    let mut items: Vec<String> = Vec::new();
    let mut i: usize = 0;
    proof {
        assert(parts.deep_view().take(0) =~= Seq::<Seq<char>>::empty());
        assert(items.deep_view() =~= parse_items_list(parts.deep_view().take(0)).unwrap());
    }
    while i < parts.len()
        invariant
            0 <= i <= parts.len(),
            parts.len() == parts.deep_view().len(),
            parts.deep_view() == split_at_char(inner@, ','),
            trim(inner@).len() != 0,
            parse_items_list(parts.deep_view().take(i as int)) == Some(items.deep_view()),
        decreases parts.len() - i,
    {
        let part = parts[i];
        let pt = crate::strutil::trim_slice(part);
        let n = pt.unicode_len();
        if n >= 2 && pt.get_char(0) == '"' && pt.get_char(n - 1) == '"' {
            let item = pt.substring_char(1, n - 1).to_owned();
            proof {
                assert(item@ =~= trim(part@).subrange(1, trim(part@).len() - 1));
                assert(parse_item(parts.deep_view()[i as int]) == Some(item@));
            }
            items.push(item);
            proof {
                let pv = parts.deep_view();
                assert(pv.take(i + 1).drop_last() =~= pv.take(i as int));
                assert(pv.take(i + 1).last() == pv[i as int]);
                assert(items.deep_view() =~= items.deep_view().drop_last() + seq![item@]);
            }
        } else {
            proof {
                assert(parse_item(parts.deep_view()[i as int]) is None);
                lemma_items_list_fail(parts.deep_view(), i as int);
            }
            return None;
        }
        i += 1;
    }
    proof {
        assert(parts.deep_view().take(parts.len() as int) =~= parts.deep_view());
    }
    Some(items)
}

/// Reads a trimmed value token.
fn parse_value_exec(v: &str) -> (r: Option<ManifestValueExec>)
    ensures
        match r {
            Some(val) => parse_value(v@) == Some(val@),
            None => parse_value(v@) is None,
        },
{
    let n = v.unicode_len();
    if n >= 2 && v.get_char(0) == '"' && v.get_char(n - 1) == '"' {
        let s = v.substring_char(1, n - 1).to_owned();
        proof {
            assert(s@ =~= v@.subrange(1, v@.len() - 1));
        }
        Some(ManifestValueExec::VStr(s))
    } else if n >= 2 && v.get_char(0) == '[' && v.get_char(n - 1) == ']' {
        let body = v.substring_char(1, n - 1);
        proof {
            assert(body@ =~= v@.subrange(1, v@.len() - 1));
        }
        match parse_items_exec(body) {
            Some(items) => Some(ManifestValueExec::VArr(items)),
            None => None,
        }
    } else {
        match crate::strutil::parse_dec_token(v) {
            Some(num) => Some(ManifestValueExec::VInt(num)),
            None => None,
        }
    }
}

/// Reads one line.
fn classify_exec(line: &str) -> (r: LineKindExec)
    ensures
        r@ == classify_line(line@),
{
    let t = crate::strutil::trim_slice(line);
    let n = t.unicode_len();
    if n == 0 {
        return LineKindExec::Blank;
    }
    if t.get_char(0) == '#' {
        return LineKindExec::Blank;
    }
    if crate::strutil::str_eq(t, "[[target]]") {
        return LineKindExec::TargetHeader;
    }
    if crate::strutil::str_eq(t, "[target.metadata]") {
        return LineKindExec::MetaHeader;
    }
    match crate::strutil::find_char_in(t, '=') {
        None => LineKindExec::Malformed,
        Some(p) => {
            proof {
                crate::strutil::lemma_find_char(t@, '=');
            }
            let khead = t.substring_char(0, p);
            let k = crate::strutil::trim_slice(khead);
            let vtail = t.substring_char(p + 1, n);
            let v = crate::strutil::trim_slice(vtail);
            proof {
                assert(khead@ =~= t@.take(p as int));
                assert(vtail@ =~= t@.skip(p + 1));
            }
            if k.unicode_len() == 0 {
                return LineKindExec::Malformed;
            }
            match parse_value_exec(v) {
                Some(val) => LineKindExec::KeyVal(k.to_owned(), val),
                None => LineKindExec::Malformed,
            }
        },
    }
}

/// The reader's state, assembled from the parser's locals.
pub open spec fn builder_state(
    done: Seq<TargetView>,
    has_cur: bool,
    name: Option<Seq<char>>,
    assets: Option<Seq<Seq<char>>>,
    meta: Option<MetadataView>,
    in_meta: bool,
) -> ParseState {
    ParseState {
        done,
        cur: if has_cur {
            Some(PartialTarget { name, assets, metadata: meta })
        } else {
            None
        },
        in_meta,
    }
}

/// Metadata with every field absent.
fn empty_meta_exec() -> (r: Metadata)
    ensures
        r@ == empty_meta(),
{
    Metadata {
        name: None,
        author: None,
        description: None,
        bundle_id: None,
        version: None,
        build_number: None,
        image_path: None,
        launch_sound_path: None,
    }
}

/// Parses manifest text.  Exactly the texts the manifest grammar admits are
/// accepted; what is returned is what the text declares.
#[verifier::rlimit(60)]
pub fn parse_manifest(text: &str) -> (r: Result<Manifest, Error>)
    ensures
        match r {
            Ok(m) => spec_parse_manifest(text@) == Some(m@),
            Err(e) => spec_parse_manifest(text@) is None && e is ConfigError,
        },
{
    let lines = crate::strutil::split_lines(text);
    let ghost lv = lines.deep_view();
    let mut done: Vec<Target> = Vec::new();
    let mut has_cur: bool = false;
    let mut cur_name: Option<String> = None;
    let mut cur_assets: Option<Vec<String>> = None;
    let mut cur_meta: Option<Metadata> = None;
    let mut in_meta: bool = false;
    let mut i: usize = 0;
    proof {
        assert(lv.skip(0) =~= lv);
        assert(builder_state(
            done.deep_view(),
            has_cur,
            cur_name.deep_view(),
            cur_assets.deep_view(),
            cur_meta.deep_view(),
            in_meta,
        ) =~~= init_state());
    }
    while i < lines.len()
        invariant
            0 <= i <= lines.len(),
            lines.len() == lv.len(),
            lv == lines.deep_view(),
            lv == lines_of(text@),
            in_meta ==> has_cur && cur_meta is Some,
            parse_lines(lv, init_state()) == parse_lines(
                lv.skip(i as int),
                builder_state(
                    done.deep_view(),
                    has_cur,
                    cur_name.deep_view(),
                    cur_assets.deep_view(),
                    cur_meta.deep_view(),
                    in_meta,
                ),
            ),
        decreases lines.len() - i,
    {
        let ghost st0 = builder_state(
            done.deep_view(),
            has_cur,
            cur_name.deep_view(),
            cur_assets.deep_view(),
            cur_meta.deep_view(),
            in_meta,
        );
        proof {
            assert(lv.skip(i as int)[0] == lv[i as int]);
            assert(lv.skip(i as int).drop_first() =~= lv.skip(i + 1));
        }
        let kind = classify_exec(lines[i]);
        let ghost k = kind@;
        match kind {
            LineKindExec::Blank => {},
            LineKindExec::TargetHeader => {
                if has_cur {
                    match cur_name {
                        Some(nm) => {
                            let t = Target { name: nm, assets: cur_assets, metadata: cur_meta };
                            let ghost tv = t@;
                            let ghost done0 = done.deep_view();
                            done.push(t);
                            proof {
                                assert(done.deep_view() =~= done0 + seq![tv]);
                            }
                        },
                        None => {
                            proof {
                                assert(step_line(st0, k) is None);
                            }
                            return Err(
                                Error::ConfigError {
                                    message: "target block without a name".to_owned(),
                                },
                            );
                        },
                    }
                }
                has_cur = true;
                cur_name = None;
                cur_assets = None;
                cur_meta = None;
                in_meta = false;
            },
            LineKindExec::MetaHeader => {
                if !has_cur {
                    proof {
                        assert(step_line(st0, k) is None);
                    }
                    return Err(
                        Error::ConfigError {
                            message: "metadata block outside a target block".to_owned(),
                        },
                    );
                }
                let m = match cur_meta {
                    Some(mm) => mm,
                    None => empty_meta_exec(),
                };
                cur_meta = Some(m);
                in_meta = true;
            },
            LineKindExec::KeyVal(key, val) => {
                if !has_cur {
                    // a stray top-level key says nothing
                } else if in_meta {
                    let mut m = match cur_meta {
                        Some(mm) => mm,
                        None => empty_meta_exec(),
                    };
                    if crate::strutil::str_eq(key.as_str(), "name") {
                        match val {
                            ManifestValueExec::VStr(s) => {
                                m.name = Some(s);
                                cur_meta = Some(m);
                            },
                            _ => {
                                return Err(
                                    Error::ConfigError {
                                        message: "metadata name must be a string".to_owned(),
                                    },
                                );
                            },
                        }
                    } else if crate::strutil::str_eq(key.as_str(), "author") {
                        match val {
                            ManifestValueExec::VStr(s) => {
                                m.author = Some(s);
                                cur_meta = Some(m);
                            },
                            _ => {
                                return Err(
                                    Error::ConfigError {
                                        message: "metadata author must be a string".to_owned(),
                                    },
                                );
                            },
                        }
                    } else if crate::strutil::str_eq(key.as_str(), "description") {
                        match val {
                            ManifestValueExec::VStr(s) => {
                                m.description = Some(s);
                                cur_meta = Some(m);
                            },
                            _ => {
                                return Err(
                                    Error::ConfigError {
                                        message: "metadata description must be a string".to_owned(),
                                    },
                                );
                            },
                        }
                    } else if crate::strutil::str_eq(key.as_str(), "bundle_id") {
                        match val {
                            ManifestValueExec::VStr(s) => {
                                m.bundle_id = Some(s);
                                cur_meta = Some(m);
                            },
                            _ => {
                                return Err(
                                    Error::ConfigError {
                                        message: "metadata bundle_id must be a string".to_owned(),
                                    },
                                );
                            },
                        }
                    } else if crate::strutil::str_eq(key.as_str(), "version") {
                        match val {
                            ManifestValueExec::VStr(s) => {
                                m.version = Some(s);
                                cur_meta = Some(m);
                            },
                            _ => {
                                return Err(
                                    Error::ConfigError {
                                        message: "metadata version must be a string".to_owned(),
                                    },
                                );
                            },
                        }
                    } else if crate::strutil::str_eq(key.as_str(), "build_number") {
                        match val {
                            ManifestValueExec::VInt(n) => {
                                m.build_number = Some(n);
                                cur_meta = Some(m);
                            },
                            _ => {
                                return Err(
                                    Error::ConfigError {
                                        message: "metadata build_number must be a number".to_owned(),
                                    },
                                );
                            },
                        }
                    } else if crate::strutil::str_eq(key.as_str(), "image_path") {
                        match val {
                            ManifestValueExec::VStr(s) => {
                                m.image_path = Some(s);
                                cur_meta = Some(m);
                            },
                            _ => {
                                return Err(
                                    Error::ConfigError {
                                        message: "metadata image_path must be a string".to_owned(),
                                    },
                                );
                            },
                        }
                    } else if crate::strutil::str_eq(key.as_str(), "launch_sound_path") {
                        match val {
                            ManifestValueExec::VStr(s) => {
                                m.launch_sound_path = Some(s);
                                cur_meta = Some(m);
                            },
                            _ => {
                                return Err(
                                    Error::ConfigError {
                                        message: "metadata launch_sound_path must be a string"
                                            .to_owned(),
                                    },
                                );
                            },
                        }
                    } else {
                        cur_meta = Some(m);
                    }
                } else {
                    if crate::strutil::str_eq(key.as_str(), "name") {
                        match val {
                            ManifestValueExec::VStr(s) => {
                                cur_name = Some(s);
                            },
                            _ => {
                                return Err(
                                    Error::ConfigError {
                                        message: "target name must be a string".to_owned(),
                                    },
                                );
                            },
                        }
                    } else if crate::strutil::str_eq(key.as_str(), "assets") {
                        match val {
                            ManifestValueExec::VArr(items) => {
                                cur_assets = Some(items);
                            },
                            _ => {
                                return Err(
                                    Error::ConfigError {
                                        message: "target assets must be a list of strings"
                                            .to_owned(),
                                    },
                                );
                            },
                        }
                    } else {
                        // an unknown key says nothing
                    }
                }
            },
            LineKindExec::Malformed => {
                proof {
                    assert(step_line(st0, k) is None);
                }
                return Err(Error::ConfigError { message: "malformed manifest line".to_owned() });
            },
        }
        proof {
            let st1 = builder_state(
                done.deep_view(),
                has_cur,
                cur_name.deep_view(),
                cur_assets.deep_view(),
                cur_meta.deep_view(),
                in_meta,
            );
            match k {
                LineKind::Blank => {
                    assert(step_line(st0, k) matches Some(s) && s =~~= st1);
                },
                LineKind::TargetHeader => {
                    assert(step_line(st0, k) matches Some(s) && s =~~= st1);
                },
                LineKind::MetaHeader => {
                    assert(step_line(st0, k) matches Some(s) && s =~~= st1);
                },
                LineKind::KeyVal(kk, vv) => {
                    if st0.cur is None {
                        assert(step_line(st0, k) matches Some(s) && s =~~= st1);
                    } else if st0.in_meta {
                        if kk == "name"@ {
                            assert(step_line(st0, k) matches Some(s) && s =~~= st1);
                        } else if kk == "author"@ {
                            assert(step_line(st0, k) matches Some(s) && s =~~= st1);
                        } else if kk == "description"@ {
                            assert(step_line(st0, k) matches Some(s) && s =~~= st1);
                        } else if kk == "bundle_id"@ {
                            assert(step_line(st0, k) matches Some(s) && s =~~= st1);
                        } else if kk == "version"@ {
                            assert(step_line(st0, k) matches Some(s) && s =~~= st1);
                        } else if kk == "build_number"@ {
                            assert(step_line(st0, k) matches Some(s) && s =~~= st1);
                        } else if kk == "image_path"@ {
                            assert(step_line(st0, k) matches Some(s) && s =~~= st1);
                        } else if kk == "launch_sound_path"@ {
                            assert(step_line(st0, k) matches Some(s) && s =~~= st1);
                        } else {
                            assert(step_line(st0, k) matches Some(s) && s =~~= st1);
                        }
                    } else {
                        if kk == "name"@ {
                            assert(step_line(st0, k) matches Some(s) && s =~~= st1);
                        } else if kk == "assets"@ {
                            assert(step_line(st0, k) matches Some(s) && s =~~= st1);
                        } else {
                            assert(step_line(st0, k) matches Some(s) && s =~~= st1);
                        }
                    }
                },
                LineKind::Malformed => {
                    assert(step_line(st0, k) matches Some(s) && s =~~= st1);
                },
            }
            assert(step_line(st0, k) matches Some(s) && s =~~= st1);
        }
        i += 1;
    }
    proof {
        assert(lv.skip(lines.len() as int) =~= Seq::<Seq<char>>::empty());
    }
    if has_cur {
        match cur_name {
            Some(nm) => {
                let t = Target { name: nm, assets: cur_assets, metadata: cur_meta };
                let ghost tv = t@;
                let ghost done0 = done.deep_view();
                done.push(t);
                proof {
                    assert(done.deep_view() =~= done0 + seq![tv]);
                }
            },
            None => {
                return Err(
                    Error::ConfigError { message: "target block without a name".to_owned() },
                );
            },
        }
    }
    let m = Manifest { targets: done };
    proof {
        assert(spec_parse_manifest(text@) matches Some(v) && v =~~= m@);
    }
    Ok(m)
}

} // verus!
