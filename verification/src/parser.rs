//! Parsing the configuration document.
//!
//! The document is a line-oriented key/value text: blank lines and `#`
//! comments are skipped; `[key]` opens a block (the key may be quoted, and
//! the reserved key `*` names the default block); `name = value` sets a
//! field of the open block, where a value is a quoted string, `true` or
//! `false`, or a list of quoted strings in brackets (so a list element
//! cannot itself contain a comma).  Escape sequences are not interpreted:
//! a quoted string's text is taken verbatim.
//!
//! Parsing rejects a malformed line, a field outside any block, a field
//! set twice in one block, an unknown field name, a second default block,
//! and a pattern key that is not a valid regular expression.  Every string
//! value is macro-expanded while it is read; a value whose expansion fails
//! becomes absent, and a list element whose expansion fails is dropped
//! alone.

use vstd::prelude::*;
use vstd::string::StrSliceExecFns;
use vstd::string::StringExecFns;

use crate::error::ConfigError;
use crate::model::{
    empty_config_v, regex_pattern_valid, regex_valid, BranchConfig, BranchConfigV, TrackConfig,
    TrackConfigV,
};
use crate::strings;
use crate::strings::trim_spec;
use crate::template::{
    process_config_value, process_spec, resolve_tags, resolve_tags_spec, TemplateContext,
};

verus! {

/// A field value as written in the document.
pub enum RawValue {
    /// A quoted string.
    Text(String),
    /// `true` or `false`.
    Flag(bool),
    /// A bracketed list of quoted strings.
    List(Vec<String>),
}

/// The mathematical form of a field value.
pub enum RawValueV {
    TextV(Seq<char>),
    FlagV(bool),
    ListV(Seq<Seq<char>>),
}

impl RawValue {
    /// The mathematical view of the value.
    pub open spec fn view(&self) -> RawValueV {
        match self {
            RawValue::Text(s) => RawValueV::TextV(s@),
            RawValue::Flag(b) => RawValueV::FlagV(*b),
            RawValue::List(l) => RawValueV::ListV(l.deep_view()),
        }
    }
}

/// One classified line of the document.
pub enum Line {
    /// Empty, whitespace only, or a comment.
    Blank,
    /// `[key]`, quotes around the key already stripped.
    Header(String),
    /// `name = value`.
    Field(String, RawValue),
    /// None of the above: structurally invalid.
    Bad,
}

/// The mathematical form of a classified line.
pub enum LineV {
    BlankV,
    HeaderV(Seq<char>),
    FieldV(Seq<char>, RawValueV),
    BadV,
}

impl Line {
    /// The mathematical view of the line.
    pub open spec fn view(&self) -> LineV {
        match self {
            Line::Blank => LineV::BlankV,
            Line::Header(k) => LineV::HeaderV(k@),
            Line::Field(k, v) => LineV::FieldV(k@, v@),
            Line::Bad => LineV::BadV,
        }
    }
}

/// The first position of `c` in `s`, or `s.len()` when `c` does not occur.
pub open spec fn find_char(s: Seq<char>, c: char) -> int
    decreases s.len(),
{
    if s.len() == 0 {
        0
    } else if s[0] == c {
        0
    } else {
        1 + find_char(s.drop_first(), c)
    }
}

pub proof fn lemma_find_char_bounds(s: Seq<char>, c: char)
    ensures
        0 <= find_char(s, c) <= s.len(),
        find_char(s, c) < s.len() ==> s[find_char(s, c)] == c,
        forall|j: int| 0 <= j < find_char(s, c) ==> s[j] != c,
    decreases s.len(),
{
    if s.len() > 0 && s[0] != c {
        lemma_find_char_bounds(s.drop_first(), c);
        let d = s.drop_first();
        assert forall|j: int| 0 <= j < find_char(s, c) implies s[j] != c by {
            if j > 0 {
                assert(d[j - 1] == s[j]);
            }
        }
    }
}

/// `s` split at every occurrence of `c`; the separators themselves are
/// dropped, and `n` separators give `n + 1` pieces.
pub open spec fn split_char_spec(s: Seq<char>, c: char) -> Seq<Seq<char>>
    decreases s.len(),
{
    let i = find_char(s, c);
    if !(0 <= i < s.len()) {
        seq![s]
    } else {
        seq![s.take(i)] + split_char_spec(s.skip(i + 1), c)
    }
}

/// The exec position of the first `c` at or after `start`.
fn find_char_from(s: &str, c: char, start: usize) -> (j: usize)
    requires
        start <= s@.len(),
    ensures
        start <= j <= s@.len(),
        j - start == find_char(s@.skip(start as int), c),
{
    let n = s.unicode_len();
    let mut j = start;
    proof {
        assert(s@.skip(start as int).skip(0) =~= s@.skip(start as int));
    }
    while j < n
        invariant
            start <= j <= n,
            n == s@.len(),
            find_char(s@.skip(start as int), c) == j - start + find_char(s@.skip(j as int), c),
        decreases n - j,
    {
        proof {
            assert(s@.skip(j as int)[0] == s@[j as int]);
        }
        if s.get_char(j) == c {
            return j;
        }
        proof {
            assert(s@.skip(j as int).drop_first() =~= s@.skip(j + 1));
        }
        j = j + 1;
    }
    proof {
        assert(s@.skip(j as int).len() == 0);
        lemma_find_char_bounds(s@.skip(start as int), c);
    }
    n
}

/// Splits `s` at every `c`.
pub fn split_char(s: &str, c: char) -> (r: Vec<String>)
    ensures
        r.deep_view() == split_char_spec(s@, c),
        r@.len() >= 1,
{
    let n = s.unicode_len();
    let mut out: Vec<String> = Vec::new();
    let mut i: usize = 0;
    proof {
        assert(s@.skip(0) =~= s@);
    }
    loop
        invariant
            i <= n,
            n == s@.len(),
            split_char_spec(s@, c) == out.deep_view() + split_char_spec(s@.skip(i as int), c),
        decreases n - i,
    {
        let j = find_char_from(s, c, i);
        let piece = s.substring_char(i, j).to_owned();
        let ghost rem = s@.skip(i as int);
        proof {
            lemma_find_char_bounds(rem, c);
            assert(piece@ =~= rem.take(find_char(rem, c)));
        }
        if j == n {
            proof {
                assert(find_char(rem, c) == rem.len());
                assert(piece@ =~= rem);
            }
            let ghost before = out.deep_view();
            out.push(piece);
            proof {
                assert(out.deep_view() =~= before.push(rem));
                assert(split_char_spec(rem, c) =~= seq![rem]);
                assert(before + seq![rem] =~= out.deep_view());
            }
            return out;
        }
        let ghost before = out.deep_view();
        out.push(piece);
        proof {
            assert(out.deep_view() =~= before.push(rem.take(find_char(rem, c))));
            assert(rem.skip(find_char(rem, c) + 1) =~= s@.skip(j + 1));
            assert(before + (seq![rem.take(find_char(rem, c))] + split_char_spec(s@.skip(j + 1), c))
                =~= out.deep_view() + split_char_spec(s@.skip(j + 1), c));
        }
        i = j + 1;
    }
}

/// The quoted string's contents: the text between a matching pair of `"`
/// or `'`, verbatim; `None` when `s` is not such a string.
pub open spec fn unquote_spec(s: Seq<char>) -> Option<Seq<char>> {
    if s.len() >= 2 && ((s.first() == '"' && s.last() == '"') || (s.first() == '\'' && s.last()
        == '\'')) {
        Some(s.subrange(1, s.len() - 1))
    } else {
        None
    }
}

fn unquote(s: &str) -> (r: Option<String>)
    ensures
        match r {
            Some(t) => unquote_spec(s@) == Some(t@),
            None => unquote_spec(s@) is None,
        },
{
    let n = s.unicode_len();
    if n < 2 {
        return None;
    }
    let a = s.get_char(0);
    let b = s.get_char(n - 1);
    if (a == '"' && b == '"') || (a == '\'' && b == '\'') {
        Some(s.substring_char(1, n - 1).to_owned())
    } else {
        None
    }
}

/// A block header's key: the bracketed text, with one matching pair of
/// quotes stripped when present; an empty or half-quoted key is invalid.
pub open spec fn header_key_spec(h: Seq<char>) -> Option<Seq<char>> {
    if h.len() > 0 && (h.first() == '"' || h.first() == '\'') {
        unquote_spec(h)
    } else if h.len() > 0 {
        Some(h)
    } else {
        None
    }
}

fn header_key(h: &str) -> (r: Option<String>)
    ensures
        match r {
            Some(t) => header_key_spec(h@) == Some(t@),
            None => header_key_spec(h@) is None,
        },
{
    let n = s_len(h);
    if n == 0 {
        return None;
    }
    let a = h.get_char(0);
    if a == '"' || a == '\'' {
        unquote(h)
    } else {
        Some(h.to_owned())
    }
}

fn s_len(s: &str) -> (r: usize)
    ensures
        r == s@.len(),
{
    s.unicode_len()
}

/// The trimmed pieces of a comma-separated list, each a quoted string;
/// `None` when some piece is not one.
pub open spec fn list_elements_spec(pieces: Seq<Seq<char>>) -> Option<Seq<Seq<char>>>
    decreases pieces.len(),
{
    if pieces.len() == 0 {
        Some(Seq::<Seq<char>>::empty())
    } else {
        match unquote_spec(trim_spec(pieces[0])) {
            None => None,
            Some(e) => match list_elements_spec(pieces.drop_first()) {
                None => None,
                Some(r) => Some(seq![e] + r),
            },
        }
    }
}

/// A bracketed list's value: its inner text split on commas, each piece a
/// quoted string.  The empty inner text is the empty list.
pub open spec fn list_value_spec(inner: Seq<char>) -> Option<RawValueV> {
    if trim_spec(inner).len() == 0 {
        Some(RawValueV::ListV(Seq::<Seq<char>>::empty()))
    } else {
        match list_elements_spec(split_char_spec(inner, ',')) {
            None => None,
            Some(es) => Some(RawValueV::ListV(es)),
        }
    }
}

/// A field's value: a quoted string, `true` or `false`, or a bracketed
/// list of quoted strings.
pub open spec fn value_spec(v: Seq<char>) -> Option<RawValueV> {
    if v == "true"@ {
        Some(RawValueV::FlagV(true))
    } else if v == "false"@ {
        Some(RawValueV::FlagV(false))
    } else if v.len() >= 2 && v.first() == '[' && v.last() == ']' {
        list_value_spec(v.subrange(1, v.len() - 1))
    } else {
        match unquote_spec(v) {
            None => None,
            Some(t) => Some(RawValueV::TextV(t)),
        }
    }
}

fn parse_list(inner: &str) -> (r: Option<Vec<String>>)
    ensures
        match r {
            Some(es) => list_value_spec(inner@) == Some(RawValueV::ListV(es.deep_view())),
            None => list_value_spec(inner@) is None,
        },
{
    let t = strings::trim(inner);
    if t.as_str().unicode_len() == 0 {
        let es: Vec<String> = Vec::new();
        proof {
            assert(es.deep_view() =~= Seq::<Seq<char>>::empty());
        }
        return Some(es);
    }
    let pieces = split_char(inner, ',');
    let mut out: Vec<String> = Vec::new();
    let mut i: usize = 0;
    let ghost pv = pieces.deep_view();
    proof {
        assert(pv.skip(0) =~= pv);
    }
    while i < pieces.len()
        invariant
            i <= pieces@.len(),
            pv == pieces.deep_view(),
            pv.len() == pieces@.len(),
            pv == split_char_spec(inner@, ','),
            trim_spec(inner@).len() != 0,
            list_elements_spec(pv) == (match list_elements_spec(pv.skip(i as int)) {
                Option::<Seq<Seq<char>>>::None => None,
                Option::<Seq<Seq<char>>>::Some(r) => Some(out.deep_view() + r),
            }),
        decreases pieces@.len() - i,
    {
        let ghost rem = pv.skip(i as int);
        proof {
            assert(rem[0] == pv[i as int]);
            assert(pv[i as int] == pieces@[i as int]@);
            assert(rem.drop_first() =~= pv.skip(i + 1));
        }
        let piece = strings::trim(pieces[i].as_str());
        match unquote(piece.as_str()) {
            None => {
                proof {
                    assert(piece@ == trim_spec(rem[0]));
                    assert(unquote_spec(trim_spec(rem[0])) is None);
                    assert(list_elements_spec(rem) is None);
                    assert(list_elements_spec(pv) is None);
                }
                return None;
            },
            Some(e) => {
                let ghost before = out.deep_view();
                out.push(e);
                proof {
                    assert(out.deep_view() =~= before.push(unquote_spec(trim_spec(rem[0]))->Some_0));
                    match list_elements_spec(pv.skip(i + 1)) {
                        Option::<Seq<Seq<char>>>::None => {},
                        Option::<Seq<Seq<char>>>::Some(r) => {
                            assert(before + (seq![unquote_spec(trim_spec(rem[0]))->Some_0] + r)
                                =~= out.deep_view() + r);
                        },
                    }
                }
            },
        }
        i = i + 1;
    }
    proof {
        assert(pv.skip(pv.len() as int).len() == 0);
        match list_elements_spec(pv.skip(pv.len() as int)) {
            Option::<Seq<Seq<char>>>::None => {
                assert(false);
            },
            Option::<Seq<Seq<char>>>::Some(r) => {
                assert(out.deep_view() + r =~= out.deep_view());
            },
        }
    }
    Some(out)
}

fn parse_value(v: &str) -> (r: Option<RawValue>)
    ensures
        match r {
            Some(rv) => value_spec(v@) == Some(rv@),
            None => value_spec(v@) is None,
        },
{
    if strings::str_eq(v, "true") {
        return Some(RawValue::Flag(true));
    }
    if strings::str_eq(v, "false") {
        return Some(RawValue::Flag(false));
    }
    let n = s_len(v);
    if n >= 2 && v.get_char(0) == '[' && v.get_char(n - 1) == ']' {
        let inner = v.substring_char(1, n - 1);
        match parse_list(inner) {
            None => None,
            Some(es) => Some(RawValue::List(es)),
        }
    } else {
        match unquote(v) {
            None => None,
            Some(t) => Some(RawValue::Text(t)),
        }
    }
}

/// How one line of the document reads.
pub open spec fn classify_spec(line: Seq<char>) -> LineV {
    let t = trim_spec(line);
    if t.len() == 0 || t.first() == '#' {
        LineV::BlankV
    } else if t.first() == '[' {
        if t.len() >= 2 && t.last() == ']' {
            match header_key_spec(trim_spec(t.subrange(1, t.len() - 1))) {
                Some(k) => LineV::HeaderV(k),
                None => LineV::BadV,
            }
        } else {
            LineV::BadV
        }
    } else {
        let e = find_char(t, '=');
        if !(0 <= e < t.len()) {
            LineV::BadV
        } else {
            let k = trim_spec(t.take(e));
            let vtext = trim_spec(t.skip(e + 1));
            if k.len() == 0 {
                LineV::BadV
            } else {
                match value_spec(vtext) {
                    Some(v) => LineV::FieldV(k, v),
                    None => LineV::BadV,
                }
            }
        }
    }
}

/// Classifies one line.
pub fn classify_line(line: &str) -> (r: Line)
    ensures
        r@ == classify_spec(line@),
{
    let t = strings::trim(line);
    let ts = t.as_str();
    let n = s_len(ts);
    if n == 0 || ts.get_char(0) == '#' {
        return Line::Blank;
    }
    if ts.get_char(0) == '[' {
        if n >= 2 && ts.get_char(n - 1) == ']' {
            let h = strings::trim(ts.substring_char(1, n - 1));
            match header_key(h.as_str()) {
                Some(k) => Line::Header(k),
                None => Line::Bad,
            }
        } else {
            Line::Bad
        }
    } else {
        let e = find_char_from(ts, '=', 0);
        proof {
            assert(ts@.skip(0) =~= ts@);
            lemma_find_char_bounds(ts@, '=');
        }
        if e == n {
            return Line::Bad;
        }
        let k = strings::trim(ts.substring_char(0, e));
        let vtext = strings::trim(ts.substring_char(e + 1, n));
        proof {
            assert(ts@.subrange(0, e as int) =~= ts@.take(find_char(ts@, '=')));
            assert(ts@.subrange(e + 1, n as int) =~= ts@.skip(find_char(ts@, '=') + 1));
        }
        if k.as_str().unicode_len() == 0 {
            return Line::Bad;
        }
        match parse_value(vtext.as_str()) {
            Some(v) => Line::Field(k, v),
            None => Line::Bad,
        }
    }
}


/// A raw block: its key and its fields, in order of appearance.
pub open spec fn fields_vw(s: Seq<(String, RawValue)>) -> Seq<(Seq<char>, RawValueV)> {
    s.map_values(|p: (String, RawValue)| (p.0@, p.1@))
}

/// The views of a list of raw blocks.
pub open spec fn blocks_vw(s: Seq<(String, Vec<(String, RawValue)>)>) -> Seq<
    (Seq<char>, Seq<(Seq<char>, RawValueV)>),
> {
    s.map_values(|p: (String, Vec<(String, RawValue)>)| (p.0@, fields_vw(p.1@)))
}

/// The view of the block being read, if one is open.
pub open spec fn cur_vw(cur: Option<(String, Vec<(String, RawValue)>)>) -> Option<
    (Seq<char>, Seq<(Seq<char>, RawValueV)>),
> {
    match cur {
        Option::None => None,
        Option::Some(b) => Some((b.0@, fields_vw(b.1@))),
    }
}

/// The open block, as the zero-or-one blocks it closes into.
pub open spec fn close_block(cur: Option<(Seq<char>, Seq<(Seq<char>, RawValueV)>)>) -> Seq<
    (Seq<char>, Seq<(Seq<char>, RawValueV)>),
> {
    match cur {
        Option::None => Seq::empty(),
        Option::Some(b) => seq![b],
    }
}

/// Groups the classified lines into blocks, from line `i` on, with `cur`
/// the block being read and `acc` the blocks already closed.  `None` on a
/// structurally invalid line or on a field outside any block.
pub open spec fn assemble_spec(
    lines: Seq<Seq<char>>,
    i: int,
    cur: Option<(Seq<char>, Seq<(Seq<char>, RawValueV)>)>,
    acc: Seq<(Seq<char>, Seq<(Seq<char>, RawValueV)>)>,
) -> Option<Seq<(Seq<char>, Seq<(Seq<char>, RawValueV)>)>>
    decreases lines.len() - i,
{
    if i >= lines.len() {
        Some(acc + close_block(cur))
    } else {
        match classify_spec(lines[i]) {
            LineV::BlankV => assemble_spec(lines, i + 1, cur, acc),
            LineV::BadV => None,
            LineV::FieldV(k, v) => match cur {
                None => None,
                Some(b) => assemble_spec(lines, i + 1, Some((b.0, b.1.push((k, v)))), acc),
            },
            LineV::HeaderV(k) => assemble_spec(
                lines,
                i + 1,
                Some((k, Seq::empty())),
                acc + close_block(cur),
            ),
        }
    }
}

/// Which fields a block has already set; a repeat is an error.
pub struct FieldsSeen {
    pub workspace: bool,
    pub description: bool,
    pub project: bool,
    pub task: bool,
    pub tags: bool,
    pub billable: bool,
}

/// No field set yet.
pub open spec fn no_fields_seen() -> FieldsSeen {
    FieldsSeen {
        workspace: false,
        description: false,
        project: false,
        task: false,
        tags: false,
        billable: false,
    }
}

/// Reads a block's fields into a rule, from field `i` on.  Each of the six
/// field names may appear once and must carry a value of its type; string
/// values are macro-expanded here, and an expansion failure leaves the
/// field absent.  `None` on a repeated field, an unknown field name, or a
/// value of the wrong type.
pub open spec fn fill_spec(
    ctx: TemplateContext,
    fields: Seq<(Seq<char>, RawValueV)>,
    i: int,
    seen: FieldsSeen,
    cfg: BranchConfigV,
) -> Option<BranchConfigV>
    decreases fields.len() - i,
{
    if i >= fields.len() {
        Some(cfg)
    } else {
        let k = fields[i].0;
        let v = fields[i].1;
        if k == "workspace"@ {
            if seen.workspace {
                None
            } else {
                match v {
                    RawValueV::TextV(s) => fill_spec(
                        ctx,
                        fields,
                        i + 1,
                        FieldsSeen { workspace: true, ..seen },
                        BranchConfigV { workspace: process_spec(ctx, s), ..cfg },
                    ),
                    _ => None,
                }
            }
        } else if k == "description"@ {
            if seen.description {
                None
            } else {
                match v {
                    RawValueV::TextV(s) => fill_spec(
                        ctx,
                        fields,
                        i + 1,
                        FieldsSeen { description: true, ..seen },
                        BranchConfigV { description: process_spec(ctx, s), ..cfg },
                    ),
                    _ => None,
                }
            }
        } else if k == "project"@ {
            if seen.project {
                None
            } else {
                match v {
                    RawValueV::TextV(s) => fill_spec(
                        ctx,
                        fields,
                        i + 1,
                        FieldsSeen { project: true, ..seen },
                        BranchConfigV { project: process_spec(ctx, s), ..cfg },
                    ),
                    _ => None,
                }
            }
        } else if k == "task"@ {
            if seen.task {
                None
            } else {
                match v {
                    RawValueV::TextV(s) => fill_spec(
                        ctx,
                        fields,
                        i + 1,
                        FieldsSeen { task: true, ..seen },
                        BranchConfigV { task: process_spec(ctx, s), ..cfg },
                    ),
                    _ => None,
                }
            }
        } else if k == "tags"@ {
            if seen.tags {
                None
            } else {
                match v {
                    RawValueV::ListV(items) => fill_spec(
                        ctx,
                        fields,
                        i + 1,
                        FieldsSeen { tags: true, ..seen },
                        BranchConfigV { tags: Some(resolve_tags_spec(ctx, items)), ..cfg },
                    ),
                    _ => None,
                }
            }
        } else if k == "billable"@ {
            if seen.billable {
                None
            } else {
                match v {
                    RawValueV::FlagV(b) => fill_spec(
                        ctx,
                        fields,
                        i + 1,
                        FieldsSeen { billable: true, ..seen },
                        BranchConfigV { billable: b, ..cfg },
                    ),
                    _ => None,
                }
            }
        } else {
            None
        }
    }
}

/// Folds the blocks into the document, from block `i` on.  The reserved
/// key `*` names the default block, allowed once; every other key must be
/// a valid regular expression and is appended in order.
pub open spec fn collect_spec(
    ctx: TemplateContext,
    blocks: Seq<(Seq<char>, Seq<(Seq<char>, RawValueV)>)>,
    i: int,
    default_seen: bool,
    dflt: BranchConfigV,
    acc: Seq<(Seq<char>, BranchConfigV)>,
) -> Option<TrackConfigV>
    decreases blocks.len() - i,
{
    if i >= blocks.len() {
        Some(TrackConfigV { default: dflt, configs: acc })
    } else {
        match fill_spec(ctx, blocks[i].1, 0, no_fields_seen(), empty_config_v()) {
            None => None,
            Some(cfg) => {
                if blocks[i].0 == "*"@ {
                    if default_seen {
                        None
                    } else {
                        collect_spec(ctx, blocks, i + 1, true, cfg, acc)
                    }
                } else if regex_valid(blocks[i].0) {
                    collect_spec(
                        ctx,
                        blocks,
                        i + 1,
                        default_seen,
                        dflt,
                        acc.push((blocks[i].0, cfg)),
                    )
                } else {
                    None
                }
            },
        }
    }
}

/// What the whole document parses to: its lines grouped into blocks, each
/// block read into a rule, the blocks folded into the document.
pub open spec fn parse_spec(text: Seq<char>, ctx: TemplateContext) -> Option<TrackConfigV> {
    match assemble_spec(split_char_spec(text, '\n'), 0, None, Seq::empty()) {
        None => None,
        Some(blocks) => collect_spec(ctx, blocks, 0, false, empty_config_v(), Seq::empty()),
    }
}


/// Reads one block's fields into a rule.
fn fill_config(ctx: &TemplateContext, fields: &Vec<(String, RawValue)>) -> (r: Result<
    BranchConfig,
    ConfigError,
>)
    ensures
        match r {
            Ok(c) => fill_spec(*ctx, fields_vw(fields@), 0, no_fields_seen(), empty_config_v())
                == Some(c@),
            Err(e) => e is Parse && fill_spec(
                *ctx,
                fields_vw(fields@),
                0,
                no_fields_seen(),
                empty_config_v(),
            ) is None,
        },
{
    let ghost fv = fields_vw(fields@);
    let mut seen = FieldsSeen {
        workspace: false,
        description: false,
        project: false,
        task: false,
        tags: false,
        billable: false,
    };
    let mut cfg = BranchConfig {
        workspace: None,
        description: None,
        project: None,
        task: None,
        tags: None,
        billable: false,
    };
    let mut i: usize = 0;
    proof {
        assert(cfg@ == empty_config_v());
        assert(seen == no_fields_seen());
    }
    while i < fields.len()
        invariant
            i <= fields@.len(),
            fv == fields_vw(fields@),
            fv.len() == fields@.len(),
            fill_spec(*ctx, fv, 0, no_fields_seen(), empty_config_v()) == fill_spec(
                *ctx,
                fv,
                i as int,
                seen,
                cfg@,
            ),
        decreases fields@.len() - i,
    {
        proof {
            assert(fv[i as int] == (fields@[i as int].0@, fields@[i as int].1@));
        }
        let k = fields[i].0.as_str();
        if strings::str_eq(k, "workspace") {
            if seen.workspace {
                return Err(ConfigError::Parse);
            }
            match &fields[i].1 {
                RawValue::Text(s) => {
                    cfg.workspace = process_config_value(ctx, s.as_str());
                    seen.workspace = true;
                },
                _ => {
                    return Err(ConfigError::Parse);
                },
            }
        } else if strings::str_eq(k, "description") {
            if seen.description {
                return Err(ConfigError::Parse);
            }
            match &fields[i].1 {
                RawValue::Text(s) => {
                    cfg.description = process_config_value(ctx, s.as_str());
                    seen.description = true;
                },
                _ => {
                    return Err(ConfigError::Parse);
                },
            }
        } else if strings::str_eq(k, "project") {
            if seen.project {
                return Err(ConfigError::Parse);
            }
            match &fields[i].1 {
                RawValue::Text(s) => {
                    cfg.project = process_config_value(ctx, s.as_str());
                    seen.project = true;
                },
                _ => {
                    return Err(ConfigError::Parse);
                },
            }
        } else if strings::str_eq(k, "task") {
            if seen.task {
                return Err(ConfigError::Parse);
            }
            match &fields[i].1 {
                RawValue::Text(s) => {
                    cfg.task = process_config_value(ctx, s.as_str());
                    seen.task = true;
                },
                _ => {
                    return Err(ConfigError::Parse);
                },
            }
        } else if strings::str_eq(k, "tags") {
            if seen.tags {
                return Err(ConfigError::Parse);
            }
            match &fields[i].1 {
                RawValue::List(items) => {
                    cfg.tags = Some(resolve_tags(ctx, items));
                    seen.tags = true;
                },
                _ => {
                    return Err(ConfigError::Parse);
                },
            }
        } else if strings::str_eq(k, "billable") {
            if seen.billable {
                return Err(ConfigError::Parse);
            }
            match &fields[i].1 {
                RawValue::Flag(b) => {
                    cfg.billable = *b;
                    seen.billable = true;
                },
                _ => {
                    return Err(ConfigError::Parse);
                },
            }
        } else {
            return Err(ConfigError::Parse);
        }
        i = i + 1;
    }
    Ok(cfg)
}

/// Parses a whole document against the given context.  The result mirrors
/// the declaration order of the pattern blocks, every pattern key compiles
/// as a regular expression, and every string value has been expanded: a
/// malformed document — a structurally invalid line, a field outside any
/// block or set twice, an unknown field name, a second default block, an
/// invalid pattern — is rejected as a parse error, and nothing else is.
pub fn parse_track_config(text: &str, ctx: &TemplateContext) -> (r: Result<
    TrackConfig,
    ConfigError,
>)
    ensures
        match r {
            Ok(c) => parse_spec(text@, *ctx) == Some(c@),
            Err(e) => e is Parse && parse_spec(text@, *ctx) is None,
        },
{
    let lines = split_char(text, '\n');
    let ghost lv = lines.deep_view();
    let mut cur: Option<(String, Vec<(String, RawValue)>)> = None;
    let mut blocks: Vec<(String, Vec<(String, RawValue)>)> = Vec::new();
    let mut i: usize = 0;
    proof {
        assert(blocks_vw(blocks@) =~= Seq::<(Seq<char>, Seq<(Seq<char>, RawValueV)>)>::empty());
    }
    while i < lines.len()
        invariant
            i <= lines@.len(),
            lv == lines.deep_view(),
            lv.len() == lines@.len(),
            lv == split_char_spec(text@, '\n'),
            assemble_spec(lv, 0, None, Seq::empty()) == assemble_spec(
                lv,
                i as int,
                cur_vw(cur),
                blocks_vw(blocks@),
            ),
        decreases lines@.len() - i,
    {
        proof {
            assert(lv[i as int] == lines@[i as int]@);
        }
        let line = classify_line(lines[i].as_str());
        match line {
            Line::Blank => {},
            Line::Bad => {
                return Err(ConfigError::Parse);
            },
            Line::Field(k, v) => {
                let taken = cur.take();
                match taken {
                    None => {
                        return Err(ConfigError::Parse);
                    },
                    Some(b) => {
                        let (key, mut fs) = b;
                        let ghost old_fs = fs@;
                        fs.push((k, v));
                        proof {
                            assert(fields_vw(fs@) =~= fields_vw(old_fs).push(
                                (fs@[old_fs.len() as int].0@, fs@[old_fs.len() as int].1@),
                            ));
                        }
                        cur = Some((key, fs));
                    },
                }
            },
            Line::Header(k) => {
                let taken = cur.take();
                let ghost old_blocks = blocks_vw(blocks@);
                match taken {
                    None => {
                        proof {
                            assert(old_blocks + close_block(cur_vw(None)) =~= old_blocks);
                        }
                    },
                    Some(b) => {
                        let ghost bv = cur_vw(Some(b));
                        blocks.push(b);
                        proof {
                            assert(blocks_vw(blocks@) =~= old_blocks + close_block(bv));
                        }
                    },
                }
                let fs: Vec<(String, RawValue)> = Vec::new();
                proof {
                    assert(fields_vw(fs@) =~= Seq::<(Seq<char>, RawValueV)>::empty());
                }
                cur = Some((k, fs));
            },
        }
        i = i + 1;
    }
    let ghost pre_close = blocks_vw(blocks@);
    let ghost cv = cur_vw(cur);
    match cur {
        None => {
            proof {
                assert(pre_close + close_block(cv) =~= pre_close);
            }
        },
        Some(b) => {
            let ghost bv = cur_vw(Some(b));
            blocks.push(b);
            proof {
                assert(blocks_vw(blocks@) =~= pre_close + close_block(bv));
            }
        },
    }
    let ghost bsv = blocks_vw(blocks@);
    proof {
        assert(assemble_spec(lv, 0, None, Seq::empty()) == Some(bsv));
    }

    let mut default_cfg = BranchConfig {
        workspace: None,
        description: None,
        project: None,
        task: None,
        tags: None,
        billable: false,
    };
    let mut default_seen = false;
    let mut configs: Vec<(String, BranchConfig)> = Vec::new();
    let mut j: usize = 0;
    proof {
        assert(default_cfg@ == empty_config_v());
        assert(configs@.map_values(|p: (String, BranchConfig)| (p.0@, p.1@)) =~= Seq::<
            (Seq<char>, BranchConfigV),
        >::empty());
    }
    while j < blocks.len()
        invariant
            j <= blocks@.len(),
            bsv == blocks_vw(blocks@),
            bsv.len() == blocks@.len(),
            lv == split_char_spec(text@, '\n'),
            assemble_spec(lv, 0, None, Seq::empty()) == Some(bsv),
            collect_spec(*ctx, bsv, 0, false, empty_config_v(), Seq::empty()) == collect_spec(
                *ctx,
                bsv,
                j as int,
                default_seen,
                default_cfg@,
                configs@.map_values(|p: (String, BranchConfig)| (p.0@, p.1@)),
            ),
        decreases blocks@.len() - j,
    {
        proof {
            assert(bsv[j as int] == (blocks@[j as int].0@, fields_vw(blocks@[j as int].1@)));
        }
        let cfg = match fill_config(ctx, &blocks[j].1) {
            Ok(c) => c,
            Err(e) => {
                return Err(e);
            },
        };
        if strings::str_eq(blocks[j].0.as_str(), "*") {
            if default_seen {
                return Err(ConfigError::Parse);
            }
            default_cfg = cfg;
            default_seen = true;
        } else if regex_pattern_valid(blocks[j].0.as_str()) {
            let key = blocks[j].0.clone();
            let ghost old_configs = configs@.map_values(|p: (String, BranchConfig)| (p.0@, p.1@));
            configs.push((key, cfg));
            proof {
                assert(configs@.map_values(|p: (String, BranchConfig)| (p.0@, p.1@)) =~= old_configs.push(
                    (configs@.last().0@, configs@.last().1@),
                ));
            }
        } else {
            return Err(ConfigError::Parse);
        }
        j = j + 1;
    }
    let result = TrackConfig { default: default_cfg, configs };
    Ok(result)
}

} // verus!
