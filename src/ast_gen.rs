use vstd::prelude::*;
use crate::text::{chars_of, collect_chars, lower_of, to_lowercase};

verus! {

/// The characters that `char::is_whitespace` accepts: Unicode `White_Space`.
pub open spec fn is_white(c: char) -> bool {
    let u = c as u32;
    (0x9 <= u && u <= 0xD) || u == 0x20 || u == 0x85 || u == 0xA0 || u == 0x1680
        || (0x2000 <= u && u <= 0x200A) || u == 0x2028 || u == 0x2029 || u == 0x202F
        || u == 0x205F || u == 0x3000
}

/// The index of the first `c` in `s`.
pub open spec fn find(s: Seq<char>, c: char) -> Option<int>
    decreases s.len(),
{
    if s.len() == 0 {
        None
    } else if s[0] == c {
        Some(0)
    } else {
        match find(s.drop_first(), c) {
            Some(k) => Some(k + 1),
            None => None,
        }
    }
}

pub open spec fn trim_start(s: Seq<char>) -> Seq<char>
    decreases s.len(),
{
    if s.len() > 0 && is_white(s[0]) {
        trim_start(s.drop_first())
    } else {
        s
    }
}

pub open spec fn trim_end(s: Seq<char>) -> Seq<char>
    decreases s.len(),
{
    if s.len() > 0 && is_white(s.last()) {
        trim_end(s.drop_last())
    } else {
        s
    }
}

/// `s` without leading and trailing white space.
pub open spec fn trim(s: Seq<char>) -> Seq<char> {
    trim_end(trim_start(s))
}

/// One field `"<type> <name>"` (white space around it ignored) becomes
/// `"<name>: <type>"`; a field without a space is malformed.
pub open spec fn parse_field(arg: Seq<char>) -> Option<Seq<char>> {
    let t = trim(arg);
    match find(t, ' ') {
        Some(k) => Some(t.skip(k + 1) + ": "@ + t.take(k)),
        None => None,
    }
}

/// The comma-separated fields of a node description.
pub open spec fn parse_fields(args: Seq<char>) -> Option<Seq<Seq<char>>>
    decreases args.len(),
    via parse_fields_decreases
{
    match find(args, ',') {
        Some(k) => match (parse_field(args.take(k)), parse_fields(args.skip(k + 1))) {
            (Some(f), Some(fs)) => Some(seq![f] + fs),
            _ => None,
        },
        None => match parse_field(args) {
            Some(f) => Some(seq![f]),
            None => None,
        },
    }
}

/// A node kind of the tree: its short name, its type name, its fields.
pub struct TreeTypeView {
    pub base_class_name: Seq<char>,
    pub class_name: Seq<char>,
    pub fields: Seq<Seq<char>>,
}

/// A description `"<Name> : <field>, <field>, ..."`; one without a colon is
/// malformed.
pub open spec fn parse_tree(desc: Seq<char>, base_name: Seq<char>) -> Option<TreeTypeView> {
    match find(desc, ':') {
        Some(k) => {
            let b = trim(desc.take(k));
            match parse_fields(desc.skip(k + 1)) {
                Some(fs) => Some(TreeTypeView { base_class_name: b, class_name: b + base_name, fields: fs }),
                None => None,
            }
        },
        None => None,
    }
}

pub open spec fn parse_trees(types: Seq<Seq<char>>, base_name: Seq<char>) -> Option<Seq<TreeTypeView>>
    decreases types.len(),
{
    if types.len() == 0 {
        Some(Seq::empty())
    } else {
        match (parse_trees(types.drop_last(), base_name), parse_tree(types.last(), base_name)) {
            (Some(ts), Some(t)) => Some(ts.push(t)),
            _ => None,
        }
    }
}

pub open spec fn field_line(f: Seq<char>) -> Seq<char> {
    "    "@ + f + ",\n"@
}

pub open spec fn field_lines(fs: Seq<Seq<char>>) -> Seq<char>
    decreases fs.len(),
{
    if fs.len() == 0 {
        Seq::empty()
    } else {
        field_lines(fs.drop_last()) + field_line(fs.last())
    }
}

pub open spec fn variant_line(t: TreeTypeView) -> Seq<char> {
    "    "@ + t.base_class_name + "("@ + t.class_name + "),\n"@
}

pub open spec fn struct_block(t: TreeTypeView) -> Seq<char> {
    "pub struct "@ + t.class_name + " {\n"@ + field_lines(t.fields) + "}\n\n"@
}

/// The visitor method of a node kind: `visit_<kind>_<base>`, both in lower case.
pub open spec fn visit_name(t: TreeTypeView, base_name: Seq<char>) -> Seq<char> {
    "visit_"@ + lower_of(t.base_class_name) + "_"@ + lower_of(base_name)
}

pub open spec fn visitor_line(t: TreeTypeView, base_name: Seq<char>) -> Seq<char> {
    "    fn "@ + visit_name(t, base_name) + "(&self, expr: &"@ + t.class_name
        + ") -> Result<T, LoxError>;\n"@
}

pub open spec fn impl_block(t: TreeTypeView, base_name: Seq<char>) -> Seq<char> {
    "impl "@ + t.class_name + " {\n"@ + "    fn accept<T>(&self, visitor: &dyn "@ + base_name
        + "Visitor<T>) -> Result<T, LoxError> {\n"@ + "        visitor."@ + visit_name(t, base_name)
        + "(self)\n"@ + "    }\n"@ + "}\n\n"@
}

/// The parts of the generated source that hold one item per node kind.
#[derive(Clone, Copy, PartialEq, Eq, Structural)]
pub enum Section {
    Variants,
    Structs,
    Visitors,
    Impls,
}

/// What node kind `t` contributes to section `sec` of the source.
pub open spec fn piece(sec: Section, t: TreeTypeView, base_name: Seq<char>) -> Seq<char> {
    match sec {
        Section::Variants => variant_line(t),
        Section::Structs => struct_block(t),
        Section::Visitors => visitor_line(t, base_name),
        Section::Impls => impl_block(t, base_name),
    }
}

/// Section `sec` of the source: the pieces of all node kinds, in order.
pub open spec fn section(sec: Section, ts: Seq<TreeTypeView>, base_name: Seq<char>) -> Seq<char>
    decreases ts.len(),
{
    if ts.len() == 0 {
        Seq::empty()
    } else {
        section(sec, ts.drop_last(), base_name) + piece(sec, ts.last(), base_name)
    }
}

/// The Rust source that declares the tree `base_name` with the node kinds `ts`.
pub open spec fn ast_source(base_name: Seq<char>, ts: Seq<TreeTypeView>) -> Seq<char> {
    "use crate::error::*;\n"@ + "use crate::lexer::token::*;\n"@ + "\npub enum "@ + base_name
        + " {\n"@ + section(Section::Variants, ts, base_name) + "}\n\n"@ + section(Section::Structs, ts, base_name)
        + "pub trait ExprVisitor<T> {\n"@ + section(Section::Visitors, ts, base_name) + "}\n\n"@
        + section(Section::Impls, ts, base_name)
}

/// The source for the tree `base_name` with the node descriptions `types`,
/// or `None` if a description is malformed.
pub open spec fn define_ast_spec(base_name: Seq<char>, types: Seq<Seq<char>>) -> Option<Seq<char>> {
    match parse_trees(types, base_name) {
        Some(ts) => Some(ast_source(base_name, ts)),
        None => None,
    }
}

/// The file that the source for the tree `base_name` goes to.
pub open spec fn ast_path_spec(output_dir: Seq<char>, base_name: Seq<char>) -> Seq<char> {
    output_dir + "/"@ + lower_of(base_name) + ".rs"@
}

/// The node descriptions of the expression tree.
pub open spec fn expr_types() -> Seq<Seq<char>> {
    seq![
        "Binary   : Box<Expr> left, Token operator, Box<Expr> right"@,
        "Grouping : Box<Expr> expression"@,
        "Literal  : Object value"@,
        "Unary    : Token operator, Box<Expr> right"@,
    ]
}

#[via_fn]
proof fn parse_fields_decreases(args: Seq<char>) {
    lemma_find(args, ',');
}

proof fn lemma_find(s: Seq<char>, c: char)
    ensures
        match find(s, c) {
            Some(k) => 0 <= k < s.len() && s[k] == c && forall|j: int| 0 <= j < k ==> s[j] != c,
            None => forall|j: int| 0 <= j < s.len() ==> s[j] != c,
        },
    decreases s.len(),
{
    if s.len() > 0 && s[0] != c {
        lemma_find(s.drop_first(), c);
        assert forall|j: int| 0 < j < s.len() implies s[j] == s.drop_first()[j - 1] by {}
    }
}

fn is_white_char(c: char) -> (r: bool)
    ensures
        r == is_white(c),
{
    let u = c as u32;
    (0x9 <= u && u <= 0xD) || u == 0x20 || u == 0x85 || u == 0xA0 || u == 0x1680
        || (0x2000 <= u && u <= 0x200A) || u == 0x2028 || u == 0x2029 || u == 0x202F
        || u == 0x205F || u == 0x3000
}

/// The index of the first `c` in `v[from..to]`.
fn find_char(v: &Vec<char>, from: usize, to: usize, c: char) -> (r: Option<usize>)
    requires
        from <= to <= v.len(),
    ensures
        match find(v@.subrange(from as int, to as int), c) {
            Some(k) => r matches Some(i) && i == from + k,
            None => r is None,
        },
        r matches Some(k) ==> from <= k < to,
{
    let ghost sub = v@.subrange(from as int, to as int);
    let mut i = from;
    while i < to
        invariant
            from <= i <= to <= v.len(),
            sub == v@.subrange(from as int, to as int),
            forall|j: int| from <= j < i ==> v@[j] != c,
        decreases to - i,
    {
        if v[i] == c {
            proof {
                lemma_find(sub, c);
            }
            assert(sub[i - from] == c);
            assert forall|j: int| 0 <= j < i - from implies sub[j] != c by {
                assert(sub[j] == v@[from + j]);
            }
            return Some(i);
        }
        i = i + 1;
    }
    proof {
        lemma_find(sub, c);
    }
    assert forall|j: int| 0 <= j < sub.len() implies sub[j] != c by {
        assert(sub[j] == v@[from + j]);
    }
    None
}

/// The bounds of `v[from..to]` without leading and trailing white space.
fn trim_range(v: &Vec<char>, from: usize, to: usize) -> (r: (usize, usize))
    requires
        from <= to <= v.len(),
    ensures
        from <= r.0 <= r.1 <= to,
        v@.subrange(r.0 as int, r.1 as int) == trim(v@.subrange(from as int, to as int)),
{
    let mut a = from;
    while a < to && is_white_char(v[a])
        invariant
            from <= a <= to <= v.len(),
            trim_start(v@.subrange(a as int, to as int)) == trim_start(v@.subrange(from as int, to as int)),
        decreases to - a,
    {
        assert(v@.subrange(a + 1, to as int) =~= v@.subrange(a as int, to as int).drop_first());
        a = a + 1;
    }
    let mut b = to;
    while b > a && is_white_char(v[b - 1])
        invariant
            from <= a <= b <= to <= v.len(),
            trim_end(v@.subrange(a as int, b as int)) == trim_end(v@.subrange(a as int, to as int)),
            trim_start(v@.subrange(a as int, to as int)) == v@.subrange(a as int, to as int),
        decreases b - a,
    {
        assert(v@.subrange(a as int, b - 1) =~= v@.subrange(a as int, b as int).drop_last());
        b = b - 1;
    }
    (a, b)
}

/// One field of `v[from..to]`, rewritten as `"<name>: <type>"`.
fn parse_field_at(v: &Vec<char>, from: usize, to: usize) -> (r: Option<String>)
    requires
        from <= to <= v.len(),
    ensures
        match parse_field(v@.subrange(from as int, to as int)) {
            Some(f) => r matches Some(x) && x@ == f,
            None => r is None,
        },
{
    let (a, b) = trim_range(v, from, to);
    let ghost t = v@.subrange(a as int, b as int);
    match find_char(v, a, b, ' ') {
        Some(k) => {
            let mut f = collect_chars(v, k + 1, b);
            f.append(": ");
            let ty = collect_chars(v, a, k);
            f.append(ty.as_str());
            assert(t.skip(k + 1 - a) =~= v@.subrange(k + 1, b as int));
            assert(t.take(k - a) =~= v@.subrange(a as int, k as int));
            Some(f)
        },
        None => None,
    }
}

pub open spec fn strs(v: Seq<String>) -> Seq<Seq<char>> {
    v.map_values(|x: String| x@)
}

pub open spec fn join(pre: Seq<Seq<char>>, rest: Option<Seq<Seq<char>>>) -> Option<Seq<Seq<char>>> {
    match rest {
        Some(fs) => Some(pre + fs),
        None => None,
    }
}

/// The comma-separated fields of `v[from..to]`.
fn parse_fields_at(v: &Vec<char>, from: usize, to: usize) -> (r: Option<Vec<String>>)
    requires
        from <= to <= v.len(),
    ensures
        match parse_fields(v@.subrange(from as int, to as int)) {
            Some(fs) => r matches Some(x) && strs(x@) == fs,
            None => r is None,
        },
{
    let mut fields: Vec<String> = Vec::new();
    let mut start = from;
    assert(strs(fields@) =~= Seq::empty());
    assert(join(Seq::empty(), parse_fields(v@.subrange(from as int, to as int)))
        =~= parse_fields(v@.subrange(from as int, to as int)));
    loop
        invariant
            from <= start <= to <= v.len(),
            parse_fields(v@.subrange(from as int, to as int))
                == join(strs(fields@), parse_fields(v@.subrange(start as int, to as int))),
        decreases to - start,
    {
        let ghost sub = v@.subrange(start as int, to as int);
        match find_char(v, start, to, ',') {
            Some(k) => {
                assert(sub.take(k - start) =~= v@.subrange(start as int, k as int));
                assert(sub.skip(k + 1 - start) =~= v@.subrange(k + 1, to as int));
                match parse_field_at(v, start, k) {
                    Some(f) => {
                        let ghost pre = strs(fields@);
                        fields.push(f);
                        assert(strs(fields@) =~= pre.push(f@));
                        proof {
                            if let Some(fs) = parse_fields(v@.subrange(k + 1, to as int)) {
                                assert(pre + (seq![f@] + fs) =~= pre.push(f@) + fs);
                            }
                        }
                        start = k + 1;
                    },
                    None => {
                        return None;
                    },
                }
            },
            None => {
                assert(sub =~= v@.subrange(start as int, to as int));
                match parse_field_at(v, start, to) {
                    Some(f) => {
                        let ghost pre = strs(fields@);
                        fields.push(f);
                        assert(strs(fields@) =~= pre + seq![f@]);
                        return Some(fields);
                    },
                    None => {
                        return None;
                    },
                }
            },
        }
    }
}

/// A node kind, as parsed from its description.
struct TreeType {
    base_class_name: String,
    class_name: String,
    fields: Vec<String>,
}

impl View for TreeType {
    type V = TreeTypeView;

    closed spec fn view(&self) -> TreeTypeView {
        TreeTypeView {
            base_class_name: self.base_class_name@,
            class_name: self.class_name@,
            fields: strs(self.fields@),
        }
    }
}

fn parse_tree_at(desc: &String, base_name: &str) -> (r: Option<TreeType>)
    ensures
        match parse_tree(desc@, base_name@) {
            Some(t) => r matches Some(x) && x@ == t,
            None => r is None,
        },
{
    let v = chars_of(desc.as_str());
    let n = v.len();
    assert(v@.subrange(0, n as int) =~= v@);
    match find_char(&v, 0, n, ':') {
        Some(k) => {
            assert(v@.take(k as int) =~= v@.subrange(0, k as int));
            assert(v@.skip(k + 1) =~= v@.subrange(k + 1, n as int));
            let (a, b) = trim_range(&v, 0, k);
            let base_class_name = collect_chars(&v, a, b);
            let mut class_name = collect_chars(&v, a, b);
            class_name.append(base_name);
            match parse_fields_at(&v, k + 1, n) {
                Some(fields) => Some(TreeType { base_class_name, class_name, fields }),
                None => None,
            }
        },
        None => None,
    }
}

pub open spec fn tviews(ts: Seq<TreeType>) -> Seq<TreeTypeView> {
    ts.map_values(|t: TreeType| t@)
}

fn field_lines_of(fields: &Vec<String>) -> (r: String)
    ensures
        r@ == field_lines(strs(fields@)),
{
    let ghost fs = strs(fields@);
    let mut out = String::new();
    let mut i: usize = 0;
    assert(fs.take(0) =~= Seq::<Seq<char>>::empty());
    while i < fields.len()
        invariant
            i <= fields.len(),
            fs == strs(fields@),
            out@ == field_lines(fs.take(i as int)),
        decreases fields.len() - i,
    {
        out.append("    ");
        out.append(fields[i].as_str());
        out.append(",\n");
        assert(fs.take(i + 1).drop_last() =~= fs.take(i as int));
        assert(out@ =~= field_lines(fs.take(i as int)) + field_line(fs[i as int]));
        i = i + 1;
    }
    assert(fs.take(i as int) =~= fs);
    out
}

/// What the node kind `t` contributes to section `sec`.
fn piece_of(sec: Section, t: &TreeType, base_name: &str, lower_base: &String) -> (r: String)
    requires
        lower_base@ == lower_of(base_name@),
    ensures
        r@ == piece(sec, t@, base_name@),
{
    if sec == Section::Variants {
        let mut r = "    ".to_string();
        r.append(t.base_class_name.as_str());
        r.append("(");
        r.append(t.class_name.as_str());
        r.append("),\n");
        r
    } else if sec == Section::Structs {
        let mut r = "pub struct ".to_string();
        r.append(t.class_name.as_str());
        r.append(" {\n");
        let fl = field_lines_of(&t.fields);
        r.append(fl.as_str());
        r.append("}\n\n");
        r
    } else {
        let lower_kind = to_lowercase(t.base_class_name.as_str());
        let mut visit = "visit_".to_string();
        visit.append(lower_kind.as_str());
        visit.append("_");
        visit.append(lower_base.as_str());
        if sec == Section::Visitors {
            let mut r = "    fn ".to_string();
            r.append(visit.as_str());
            r.append("(&self, expr: &");
            r.append(t.class_name.as_str());
            r.append(") -> Result<T, LoxError>;\n");
            assert(r@ =~= visitor_line(t@, base_name@));
            r
        } else {
            let mut r = "impl ".to_string();
            r.append(t.class_name.as_str());
            r.append(" {\n");
            r.append("    fn accept<T>(&self, visitor: &dyn ");
            r.append(base_name);
            r.append("Visitor<T>) -> Result<T, LoxError> {\n");
            r.append("        visitor.");
            r.append(visit.as_str());
            r.append("(self)\n");
            r.append("    }\n");
            r.append("}\n\n");
            assert(r@ =~= impl_block(t@, base_name@));
            r
        }
    }
}

fn section_of(sec: Section, trees: &Vec<TreeType>, base_name: &str, lower_base: &String) -> (r: String)
    requires
        lower_base@ == lower_of(base_name@),
    ensures
        r@ == section(sec, tviews(trees@), base_name@),
{
    let ghost ts = tviews(trees@);
    let mut out = String::new();
    let mut i: usize = 0;
    assert(ts.take(0) =~= Seq::<TreeTypeView>::empty());
    while i < trees.len()
        invariant
            i <= trees.len(),
            ts == tviews(trees@),
            lower_base@ == lower_of(base_name@),
            out@ == section(sec, ts.take(i as int), base_name@),
        decreases trees.len() - i,
    {
        let p = piece_of(sec, &trees[i], base_name, lower_base);
        out.append(p.as_str());
        assert(ts.take(i + 1).drop_last() =~= ts.take(i as int));
        i = i + 1;
    }
    assert(ts.take(i as int) =~= ts);
    out
}

proof fn lemma_parse_trees_none(types: Seq<Seq<char>>, base_name: Seq<char>, j: int)
    requires
        0 <= j <= types.len(),
        parse_trees(types.take(j), base_name) is None,
    ensures
        parse_trees(types, base_name) is None,
    decreases types.len(),
{
    if j == types.len() {
        assert(types.take(j) =~= types);
    } else {
        assert(types.drop_last().take(j) =~= types.take(j));
        lemma_parse_trees_none(types.drop_last(), base_name, j);
    }
}

/// The Rust source that declares the tree `base_name` with the node kinds
/// described by `types`, each as `"<Name> : <type> <field>, ..."`; `None`
/// if a description has no colon or a field has no space.
pub fn define_ast(base_name: &str, types: &Vec<String>) -> (r: Option<String>)
    ensures
        match define_ast_spec(base_name@, strs(types@)) {
            Some(t) => r matches Some(x) && x@ == t,
            None => r is None,
        },
{
    let ghost ds = strs(types@);
    let mut trees: Vec<TreeType> = Vec::new();
    let mut i: usize = 0;
    assert(ds.take(0) =~= Seq::<Seq<char>>::empty());
    assert(tviews(trees@) =~= Seq::<TreeTypeView>::empty());
    while i < types.len()
        invariant
            i <= types.len(),
            ds == strs(types@),
            parse_trees(ds.take(i as int), base_name@) == Some(tviews(trees@)),
        decreases types.len() - i,
    {
        assert(ds.take(i + 1).drop_last() =~= ds.take(i as int));
        assert(ds.take(i + 1).last() == types@[i as int]@);
        match parse_tree_at(&types[i], base_name) {
            Some(t) => {
                let ghost pre = tviews(trees@);
                trees.push(t);
                assert(tviews(trees@) =~= pre.push(t@));
            },
            None => {
                proof {
                    lemma_parse_trees_none(ds, base_name@, i + 1);
                }
                return None;
            },
        }
        i = i + 1;
    }
    assert(ds.take(i as int) =~= ds);
    let lower_base = to_lowercase(base_name);
    let mut out = "use crate::error::*;\n".to_string();
    out.append("use crate::lexer::token::*;\n");
    out.append("\npub enum ");
    out.append(base_name);
    out.append(" {\n");
    let variants = section_of(Section::Variants, &trees, base_name, &lower_base);
    out.append(variants.as_str());
    out.append("}\n\n");
    let structs = section_of(Section::Structs, &trees, base_name, &lower_base);
    out.append(structs.as_str());
    out.append("pub trait ExprVisitor<T> {\n");
    let visitors = section_of(Section::Visitors, &trees, base_name, &lower_base);
    out.append(visitors.as_str());
    out.append("}\n\n");
    let impls = section_of(Section::Impls, &trees, base_name, &lower_base);
    out.append(impls.as_str());
    Some(out)
}

/// The file that the source for the tree `base_name` goes to in `output_dir`.
pub fn ast_path(output_dir: &str, base_name: &str) -> (r: String)
    ensures
        r@ == ast_path_spec(output_dir@, base_name@),
{
    let mut p = output_dir.to_string();
    p.append("/");
    let lower = to_lowercase(base_name);
    p.append(lower.as_str());
    p.append(".rs");
    p
}

/// The path and the source of the expression tree's declarations, for the
/// directory `output_dir`.
pub fn generate_ast(output_dir: &str) -> (r: Option<(String, String)>)
    ensures
        match define_ast_spec("Expr"@, expr_types()) {
            Some(t) => r matches Some((p, c)) && p@ == ast_path_spec(output_dir@, "Expr"@) && c@ == t,
            None => r is None,
        },
{
    let types = vec![
        "Binary   : Box<Expr> left, Token operator, Box<Expr> right".to_string(),
        "Grouping : Box<Expr> expression".to_string(),
        "Literal  : Object value".to_string(),
        "Unary    : Token operator, Box<Expr> right".to_string(),
    ];
    assert(strs(types@) =~= expr_types());
    match define_ast("Expr", &types) {
        Some(contents) => Some((ast_path(output_dir, "Expr"), contents)),
        None => None,
    }
}

} // verus!
