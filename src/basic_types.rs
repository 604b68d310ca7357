//! The table of basic value types and the generator that turns it into
//! wrapper declarations, a header list and conversion routines.
use vstd::prelude::*;
use vstd::string::StrSliceExecFns;

verus! {

/// A character that may begin an identifier.
pub open spec fn is_ident_start(c: char) -> bool {
    ('a' <= c && c <= 'z') || ('A' <= c && c <= 'Z') || c == '_'
}

/// A character that may follow the first one in an identifier.
pub open spec fn is_ident_continue(c: char) -> bool {
    is_ident_start(c) || ('0' <= c && c <= '9')
}

/// A non-empty identifier: a letter or `_`, then letters, digits or `_`.
pub open spec fn is_identifier(s: Seq<char>) -> bool {
    &&& s.len() > 0
    &&& is_ident_start(s[0])
    &&& forall|i: int| 1 <= i < s.len() ==> is_ident_continue(#[trigger] s[i])
}

fn char_is_ident_start(c: char) -> (r: bool)
    ensures
        r == is_ident_start(c),
{
    ('a' <= c && c <= 'z') || ('A' <= c && c <= 'Z') || c == '_'
}

fn char_is_ident_continue(c: char) -> (r: bool)
    ensures
        r == is_ident_continue(c),
{
    char_is_ident_start(c) || ('0' <= c && c <= '9')
}

/// Whether `s` is a well-formed name for a wrapper type.
pub fn check_identifier(s: &str) -> (r: bool)
    ensures
        r == is_identifier(s@),
{
    let n = s.unicode_len();
    if n == 0 {
        return false;
    }
    if !char_is_ident_start(s.get_char(0)) {
        return false;
    }
    let mut i: usize = 1;
    while i < n
        invariant
            n == s@.len(),
            1 <= i <= n,
            forall|k: int| 1 <= k < i ==> is_ident_continue(#[trigger] s@[k]),
        decreases n - i,
    {
        if !char_is_ident_continue(s.get_char(i)) {
            return false;
        }
        i = i + 1;
    }
    true
}


/// One supported value kind: the wrapper's name, its host storage, the
/// native type it stands for, and the native header that declares that type.
pub struct TypeDescriptor {
    pub logical_name: String,
    pub storage_type: String,
    pub native_type: String,
    pub native_header: Option<String>,
}

/// What a `TypeDescriptor` holds, as character sequences.
pub struct DescriptorView {
    pub logical_name: Seq<char>,
    pub storage_type: Seq<char>,
    pub native_type: Seq<char>,
    pub native_header: Option<Seq<char>>,
}

impl View for TypeDescriptor {
    type V = DescriptorView;

    open spec fn view(&self) -> DescriptorView {
        DescriptorView {
            logical_name: self.logical_name@,
            storage_type: self.storage_type@,
            native_type: self.native_type@,
            native_header: match &self.native_header {
                Some(h) => Some(h@),
                None => None,
            },
        }
    }
}

/// The table as a sequence of descriptor views.
pub open spec fn table_view(t: Seq<TypeDescriptor>) -> Seq<DescriptorView> {
    t.map_values(|d: TypeDescriptor| d@)
}

/// Why a table cannot be turned into source: the entry at `index` has a
/// name that is not an identifier, or repeats the name of an earlier entry.
#[derive(Clone, Copy, Debug, PartialEq, Eq, Structural)]
pub enum GenerationError {
    MalformedName { index: usize },
    DuplicateName { index: usize },
}

/// Whether some entry before `i` has the same name as entry `i`.
pub open spec fn repeats_earlier(t: Seq<DescriptorView>, i: int) -> bool {
    exists|j: int| 0 <= j < i && (#[trigger] t[j]).logical_name == t[i].logical_name
}

/// The fault of entry `i`, if it has one.
pub open spec fn problem_at(t: Seq<DescriptorView>, i: int) -> Option<GenerationError> {
    if !is_identifier(t[i].logical_name) {
        Some(GenerationError::MalformedName { index: i as usize })
    } else if repeats_earlier(t, i) {
        Some(GenerationError::DuplicateName { index: i as usize })
    } else {
        None
    }
}

/// A table from which source can be generated: every name is an identifier
/// and no name occurs twice.
pub open spec fn table_valid(t: Seq<DescriptorView>) -> bool {
    forall|i: int| 0 <= i < t.len() ==> (#[trigger] problem_at(t, i)) is None
}

/// The index that an error names.
pub open spec fn error_index(e: GenerationError) -> int {
    match e {
        GenerationError::MalformedName { index } => index as int,
        GenerationError::DuplicateName { index } => index as int,
    }
}

/// The first fault of the table, if there is one.
pub fn validate_table(table: &Vec<TypeDescriptor>) -> (r: Result<(), GenerationError>)
    ensures
        r is Ok <==> table_valid(table_view(table@)),
        r matches Err(e) ==> {
            let i = error_index(e);
            &&& 0 <= i < table@.len()
            &&& problem_at(table_view(table@), i) == Some(e)
            &&& forall|j: int| 0 <= j < i ==> (#[trigger] problem_at(table_view(table@), j)) is None
        },
{
    let ghost tv = table_view(table@);
    let mut i: usize = 0;
    while i < table.len()
        invariant
            tv == table_view(table@),
            0 <= i <= table@.len(),
            forall|j: int| 0 <= j < i ==> (#[trigger] problem_at(tv, j)) is None,
        decreases table@.len() - i,
    {
        let name = &table[i].logical_name;
        assert(tv[i as int].logical_name == name@);
        if !check_identifier(name.as_str()) {
            return Err(GenerationError::MalformedName { index: i });
        }
        let mut j: usize = 0;
        while j < i
            invariant
                tv == table_view(table@),
                0 <= j <= i < table@.len(),
                name@ == tv[i as int].logical_name,
                is_identifier(name@),
                forall|k: int| 0 <= k < i ==> (#[trigger] problem_at(tv, k)) is None,
                forall|k: int| 0 <= k < j ==> tv[k].logical_name != tv[i as int].logical_name,
            decreases i - j,
        {
            if table[j].logical_name == *name {
                assert(tv[j as int].logical_name == tv[i as int].logical_name);
                assert(repeats_earlier(tv, i as int));
                return Err(GenerationError::DuplicateName { index: i });
            }
            j = j + 1;
        }
        assert(!repeats_earlier(tv, i as int));
        assert(problem_at(tv, i as int) is None);
        i = i + 1;
    }
    Ok(())
}

/// The wrapper names of the table, in table order.
pub open spec fn names_of(t: Seq<DescriptorView>) -> Seq<Seq<char>> {
    t.map_values(|d: DescriptorView| d.logical_name)
}

/// The wrapper names of `table`, in table order.
pub fn wrapper_names(table: &Vec<TypeDescriptor>) -> (r: Vec<String>)
    ensures
        r.deep_view() == names_of(table_view(table@)),
{
    let mut r: Vec<String> = Vec::new();
    let mut i: usize = 0;
    while i < table.len()
        invariant
            0 <= i <= table@.len(),
            r@.len() == i,
            forall|k: int| 0 <= k < i ==> (#[trigger] r@[k])@ == table@[k].logical_name@,
        decreases table@.len() - i,
    {
        r.push(table[i].logical_name.clone());
        i = i + 1;
    }
    assert(r.deep_view() =~= names_of(table_view(table@)));
    r
}


/// The headers that the table needs, each once, in order of first use;
/// entries without a header add nothing.
pub open spec fn headers_of(t: Seq<DescriptorView>) -> Seq<Seq<char>>
    decreases t.len(),
{
    if t.len() == 0 {
        Seq::empty()
    } else {
        let prev = headers_of(t.drop_last());
        match t.last().native_header {
            Some(h) => if prev.contains(h) {
                prev
            } else {
                prev.push(h)
            },
            None => prev,
        }
    }
}

fn contains_string(v: &Vec<String>, s: &String) -> (r: bool)
    ensures
        r == v.deep_view().contains(s@),
{
    let mut i: usize = 0;
    while i < v.len()
        invariant
            0 <= i <= v@.len(),
            forall|k: int| 0 <= k < i ==> (#[trigger] v@[k])@ != s@,
        decreases v@.len() - i,
    {
        if v[i] == *s {
            assert(v.deep_view()[i as int] == s@);
            return true;
        }
        i = i + 1;
    }
    assert(!v.deep_view().contains(s@)) by {
        assert(forall|k: int| 0 <= k < v@.len() ==> v.deep_view()[k] == (#[trigger] v@[k])@);
    }
    false
}

/// The headers that `table` needs, each once, in order of first use.
pub fn header_list(table: &Vec<TypeDescriptor>) -> (r: Vec<String>)
    ensures
        r.deep_view() == headers_of(table_view(table@)),
{
    let ghost tv = table_view(table@);
    let mut r: Vec<String> = Vec::new();
    let mut i: usize = 0;
    while i < table.len()
        invariant
            tv == table_view(table@),
            0 <= i <= table@.len(),
            r.deep_view() == headers_of(tv.take(i as int)),
        decreases table@.len() - i,
    {
        let ghost before = r.deep_view();
        assert(tv.take(i + 1).drop_last() == tv.take(i as int));
        assert(tv.take(i + 1).last() == tv[i as int]);
        match &table[i].native_header {
            Some(h) => {
                if !contains_string(&r, h) {
                    r.push(h.clone());
                    assert(r.deep_view() =~= before.push(h@));
                }
            },
            None => {},
        }
        i = i + 1;
    }
    assert(tv.take(table@.len() as int) == tv);
    r
}

/// The declaration of the wrapper type of one entry.
pub open spec fn declaration_of(d: DescriptorView) -> Seq<char> {
    "pub struct "@ + d.logical_name + "(pub "@ + d.storage_type + ");\n"@
}

/// The declarations of all wrapper types, in table order.
pub open spec fn declarations_of(t: Seq<DescriptorView>) -> Seq<char>
    decreases t.len(),
{
    if t.len() == 0 {
        Seq::empty()
    } else {
        declarations_of(t.drop_last()) + declaration_of(t.last())
    }
}

/// The declarations of the wrapper types of `table`, in table order.
pub fn declarations(table: &Vec<TypeDescriptor>) -> (r: String)
    ensures
        r@ == declarations_of(table_view(table@)),
{
    let ghost tv = table_view(table@);
    let mut r = String::new();
    let mut i: usize = 0;
    while i < table.len()
        invariant
            tv == table_view(table@),
            0 <= i <= table@.len(),
            r@ == declarations_of(tv.take(i as int)),
        decreases table@.len() - i,
    {
        let ghost before = r@;
        assert(tv.take(i + 1).drop_last() == tv.take(i as int));
        let d = &table[i];
        r.append("pub struct ");
        r.append(d.logical_name.as_str());
        r.append("(pub ");
        r.append(d.storage_type.as_str());
        r.append(");\n");
        assert(r@ =~= before + declaration_of(tv[i as int]));
        i = i + 1;
    }
    assert(tv.take(table@.len() as int) == tv);
    r
}

/// One piece of a per-entry template: fixed text, or a field of the entry.
pub enum Piece {
    Text(String),
    LogicalName,
    StorageType,
    NativeType,
}

/// What one piece stands for on entry `d`.
pub open spec fn piece_text(p: Piece, d: DescriptorView) -> Seq<char> {
    match p {
        Piece::Text(s) => s@,
        Piece::LogicalName => d.logical_name,
        Piece::StorageType => d.storage_type,
        Piece::NativeType => d.native_type,
    }
}

/// A template filled in with the fields of entry `d`.
pub open spec fn render(pieces: Seq<Piece>, d: DescriptorView) -> Seq<char>
    decreases pieces.len(),
{
    if pieces.len() == 0 {
        Seq::empty()
    } else {
        render(pieces.drop_last(), d) + piece_text(pieces.last(), d)
    }
}

/// A template filled in for every entry, in table order.
pub open spec fn render_table(pieces: Seq<Piece>, t: Seq<DescriptorView>) -> Seq<char>
    decreases t.len(),
{
    if t.len() == 0 {
        Seq::empty()
    } else {
        render_table(pieces, t.drop_last()) + render(pieces, t.last())
    }
}

/// Appends `pieces` filled in with the fields of `d` to `out`.
pub fn render_entry(pieces: &Vec<Piece>, d: &TypeDescriptor, out: &mut String)
    ensures
        final(out)@ == old(out)@ + render(pieces@, d@),
{
    let mut i: usize = 0;
    while i < pieces.len()
        invariant
            0 <= i <= pieces@.len(),
            out@ == old(out)@ + render(pieces@.take(i as int), d@),
        decreases pieces@.len() - i,
    {
        let ghost before = out@;
        assert(pieces@.take(i + 1).drop_last() == pieces@.take(i as int));
        match &pieces[i] {
            Piece::Text(t) => out.append(t.as_str()),
            Piece::LogicalName => out.append(d.logical_name.as_str()),
            Piece::StorageType => out.append(d.storage_type.as_str()),
            Piece::NativeType => out.append(d.native_type.as_str()),
        }
        assert(out@ =~= old(out)@ + render(pieces@.take(i + 1), d@));
        i = i + 1;
    }
    assert(pieces@.take(pieces@.len() as int) == pieces@);
}

/// `pieces` filled in for every entry of `table`, in table order.
pub fn render_all(pieces: &Vec<Piece>, table: &Vec<TypeDescriptor>) -> (r: String)
    ensures
        r@ == render_table(pieces@, table_view(table@)),
{
    let ghost tv = table_view(table@);
    let mut r = String::new();
    let mut i: usize = 0;
    while i < table.len()
        invariant
            tv == table_view(table@),
            0 <= i <= table@.len(),
            r@ == render_table(pieces@, tv.take(i as int)),
        decreases table@.len() - i,
    {
        assert(tv.take(i + 1).drop_last() == tv.take(i as int));
        render_entry(pieces, &table[i], &mut r);
        i = i + 1;
    }
    assert(tv.take(table@.len() as int) == tv);
    r
}

/// One line per header: `prefix`, the header, `suffix`.
pub open spec fn header_lines(hs: Seq<Seq<char>>, prefix: Seq<char>, suffix: Seq<char>) -> Seq<char>
    decreases hs.len(),
{
    if hs.len() == 0 {
        Seq::empty()
    } else {
        header_lines(hs.drop_last(), prefix, suffix) + prefix + hs.last() + suffix
    }
}

/// Each of `headers` between `prefix` and `suffix`, in order.
pub fn render_header_lines(headers: &Vec<String>, prefix: &str, suffix: &str) -> (r: String)
    ensures
        r@ == header_lines(headers.deep_view(), prefix@, suffix@),
{
    let ghost hv = headers.deep_view();
    let mut r = String::new();
    let mut i: usize = 0;
    while i < headers.len()
        invariant
            hv == headers.deep_view(),
            0 <= i <= headers@.len(),
            r@ == header_lines(hv.take(i as int), prefix@, suffix@),
        decreases headers@.len() - i,
    {
        let ghost before = r@;
        assert(hv.take(i + 1).drop_last() == hv.take(i as int));
        assert(hv[i as int] == headers@[i as int]@);
        r.append(prefix);
        r.append(headers[i].as_str());
        r.append(suffix);
        assert(r@ =~= header_lines(hv.take(i + 1), prefix@, suffix@));
        i = i + 1;
    }
    assert(hv.take(headers@.len() as int) == hv);
    r
}


/// What the generator makes of a table: the wrapper names, the headers to
/// bring in, the wrapper declarations, and the conversion routines.
pub struct GeneratedSource {
    pub names: Vec<String>,
    pub headers: Vec<String>,
    pub declarations: String,
    pub conversions: String,
}

/// What a `GeneratedSource` holds, as character sequences.
pub struct GeneratedView {
    pub names: Seq<Seq<char>>,
    pub headers: Seq<Seq<char>>,
    pub declarations: Seq<char>,
    pub conversions: Seq<char>,
}

impl View for GeneratedSource {
    type V = GeneratedView;

    open spec fn view(&self) -> GeneratedView {
        GeneratedView {
            names: self.names.deep_view(),
            headers: self.headers.deep_view(),
            declarations: self.declarations@,
            conversions: self.conversions@,
        }
    }
}

/// The source generated from a valid table, with `conversion` as the
/// template of the conversion routines of one entry.
pub open spec fn generated_of(t: Seq<DescriptorView>, conversion: Seq<Piece>) -> GeneratedView {
    GeneratedView {
        names: names_of(t),
        headers: headers_of(t),
        declarations: declarations_of(t),
        conversions: render_table(conversion, t),
    }
}

/// `e` is the fault of the first faulty entry of `t`.
pub open spec fn is_first_problem(t: Seq<DescriptorView>, e: GenerationError) -> bool {
    let i = error_index(e);
    &&& 0 <= i < t.len()
    &&& problem_at(t, i) == Some(e)
    &&& forall|j: int| 0 <= j < i ==> (#[trigger] problem_at(t, j)) is None
}

/// A generator result, as views.
pub open spec fn outcome_view(r: Result<GeneratedSource, GenerationError>) -> Result<GeneratedView, GenerationError> {
    match r {
        Ok(g) => Ok(g@),
        Err(e) => Err(e),
    }
}

/// What generation owes on table `t`: the generated source when the table
/// is valid, otherwise the fault of its first faulty entry and nothing else.
pub open spec fn generation_post(
    t: Seq<DescriptorView>,
    conversion: Seq<Piece>,
    r: Result<GeneratedView, GenerationError>,
) -> bool {
    match r {
        Ok(g) => table_valid(t) && g == generated_of(t, conversion),
        Err(e) => !table_valid(t) && is_first_problem(t, e),
    }
}

/// Generates the wrapper names, headers, declarations and conversion
/// routines of `table`, or reports its first faulty entry.
pub fn generate(table: &Vec<TypeDescriptor>, conversion: &Vec<Piece>) -> (r: Result<GeneratedSource, GenerationError>)
    ensures
        generation_post(table_view(table@), conversion@, outcome_view(r)),
{
    match validate_table(table) {
        Err(e) => Err(e),
        Ok(()) => {
            let names = wrapper_names(table);
            let headers = header_list(table);
            let declarations = declarations(table);
            let conversions = render_all(conversion, table);
            Ok(GeneratedSource { names, headers, declarations, conversions })
        },
    }
}

/// A table has at most one first fault.
pub proof fn lemma_first_problem_unique(t: Seq<DescriptorView>, e1: GenerationError, e2: GenerationError)
    requires
        is_first_problem(t, e1),
        is_first_problem(t, e2),
    ensures
        e1 == e2,
{
    let i1 = error_index(e1);
    let i2 = error_index(e2);
    if i1 < i2 {
        assert(problem_at(t, i1) is None);
    } else if i2 < i1 {
        assert(problem_at(t, i2) is None);
    }
}

/// Generation is deterministic: two runs on the same table and template
/// give the same result, to the last character.
pub proof fn lemma_generation_deterministic(
    t: Seq<DescriptorView>,
    conversion: Seq<Piece>,
    r1: Result<GeneratedView, GenerationError>,
    r2: Result<GeneratedView, GenerationError>,
)
    requires
        generation_post(t, conversion, r1),
        generation_post(t, conversion, r2),
    ensures
        r1 == r2,
{
    match (r1, r2) {
        (Err(e1), Err(e2)) => lemma_first_problem_unique(t, e1, e2),
        _ => {},
    }
}

/// The set of names in the table.
pub open spec fn name_set(t: Seq<DescriptorView>) -> Set<Seq<char>> {
    Set::new(|n: Seq<char>| exists|i: int| 0 <= i < t.len() && (#[trigger] t[i]).logical_name == n)
}

/// On a valid table the wrapper names are exactly the table's names:
/// one per entry, none twice, none missing.
pub proof fn lemma_names_exact(t: Seq<DescriptorView>)
    requires
        table_valid(t),
    ensures
        names_of(t).len() == t.len(),
        names_of(t).no_duplicates(),
        names_of(t).to_set() == name_set(t),
{
    let ns = names_of(t);
    assert forall|i: int, j: int| 0 <= i < ns.len() && 0 <= j < ns.len() && i != j implies ns[i] != ns[j] by {
        let (a, b) = if i < j { (i, j) } else { (j, i) };
        assert(problem_at(t, b) is None);
        if ns[a] == ns[b] {
            assert(t[a].logical_name == t[b].logical_name);
            assert(repeats_earlier(t, b));
        }
    }
    assert forall|n: Seq<char>| ns.to_set().contains(n) <==> name_set(t).contains(n) by {
        if ns.contains(n) {
            let i = choose|i: int| 0 <= i < ns.len() && ns[i] == n;
            assert(t[i].logical_name == n);
        }
        if name_set(t).contains(n) {
            let i = choose|i: int| 0 <= i < t.len() && (#[trigger] t[i]).logical_name == n;
            assert(ns[i] == n);
        }
    }
    assert(ns.to_set() =~= name_set(t));
}

/// `h` is the header of some entry of `t`.
pub open spec fn some_entry_needs(t: Seq<DescriptorView>, h: Seq<char>) -> bool {
    exists|i: int| 0 <= i < t.len() && (#[trigger] t[i]).native_header == Some(h)
}

/// The header list holds each header that some entry names, once, and no
/// other; entries without a header contribute nothing.
pub proof fn lemma_headers_exact(t: Seq<DescriptorView>)
    ensures
        headers_of(t).no_duplicates(),
        forall|h: Seq<char>| #[trigger] headers_of(t).contains(h) <==> some_entry_needs(t, h),
    decreases t.len(),
{
    if t.len() > 0 {
        let p = t.drop_last();
        lemma_headers_exact(p);
        let prev = headers_of(p);
        assert forall|h: Seq<char>| #[trigger] headers_of(t).contains(h) <==> some_entry_needs(t, h) by {
            if some_entry_needs(p, h) {
                let i = choose|i: int| 0 <= i < p.len() && (#[trigger] p[i]).native_header == Some(h);
                assert(t[i] == p[i]);
            }
            if some_entry_needs(t, h) {
                let i = choose|i: int| 0 <= i < t.len() && (#[trigger] t[i]).native_header == Some(h);
                if i < t.len() - 1 {
                    assert(p[i] == t[i]);
                }
            }
            match t.last().native_header {
                Some(x) => {
                    if !prev.contains(x) {
                        assert(prev.push(x).contains(h) <==> (prev.contains(h) || h == x)) by {
                            if h == x {
                                assert(prev.push(x)[prev.len() as int] == x);
                            }
                            if prev.push(x).contains(h) && h != x {
                                let k = choose|k: int| 0 <= k < prev.push(x).len() && prev.push(x)[k] == h;
                                assert(prev[k] == h);
                            }
                            if prev.contains(h) {
                                let k = choose|k: int| 0 <= k < prev.len() && prev[k] == h;
                                assert(prev.push(x)[k] == h);
                            }
                        }
                    }
                },
                None => {},
            }
        }
        match t.last().native_header {
            Some(x) => {
                if !prev.contains(x) {
                    let q = prev.push(x);
                    assert forall|a: int, b: int| 0 <= a < q.len() && 0 <= b < q.len() && a != b implies q[a] != q[b] by {
                        if a == prev.len() {
                            if q[a] == q[b] {
                                assert(prev[b] == x);
                            }
                        } else if b == prev.len() {
                            if q[a] == q[b] {
                                assert(prev[a] == x);
                            }
                        }
                    }
                }
            },
            None => {},
        }
    }
}


/// The view of one table entry.
pub open spec fn entry_view(
    name: Seq<char>,
    storage: Seq<char>,
    native: Seq<char>,
    header: Option<Seq<char>>,
) -> DescriptorView {
    DescriptorView {
        logical_name: name,
        storage_type: storage,
        native_type: native,
        native_header: header,
    }
}

/// Makes one table entry.
pub fn entry(name: &str, storage: &str, native: &str, header: Option<&str>) -> (d: TypeDescriptor)
    ensures
        d@ == entry_view(
            name@,
            storage@,
            native@,
            match header {
                Some(h) => Some(h@),
                None => None,
            },
        ),
{
    let native_header = match header {
        Some(h) => Some(String::from_str(h)),
        None => None,
    };
    TypeDescriptor {
        logical_name: String::from_str(name),
        storage_type: String::from_str(storage),
        native_type: String::from_str(native),
        native_header,
    }
}

/// The basic value types of USD, in the order in which their wrappers are
/// declared.
pub open spec fn basic_type_table() -> Seq<DescriptorView> {
    seq![
        entry_view("Bool"@, "bool"@, "bool"@, None),
        entry_view("UChar"@, "u8"@, "uint8_t"@, None),
        entry_view("Int"@, "i32"@, "int32_t"@, None),
        entry_view("UInt"@, "u32"@, "uint32_t"@, None),
        entry_view("Int64"@, "i64"@, "int64_t"@, None),
        entry_view("UInt64"@, "u64"@, "uint64_t"@, None),
        entry_view("Half"@, "f16"@, "pxr::GfHalf"@, Some("pxr/base/gf/half.h"@)),
        entry_view("Float"@, "f32"@, "float"@, None),
        entry_view("Double"@, "f64"@, "double"@, None),
        entry_view("Token"@, "crate::pxr::tf::Token"@, "pxr::TfToken"@, Some("pxr/base/tf/token.h"@)),
        entry_view("Matrix2d"@, "[f64;2*2]"@, "pxr::GfMatrix2d"@, Some("pxr/base/gf/matrix2d.h"@)),
        entry_view("Matrix3d"@, "[f64;3*3]"@, "pxr::GfMatrix3d"@, Some("pxr/base/gf/matrix3d.h"@)),
        entry_view("Matrix4d"@, "[f64;4*4]"@, "pxr::GfMatrix4d"@, Some("pxr/base/gf/matrix4d.h"@)),
        entry_view("Quatd"@, "[f64;4]"@, "pxr::GfQuatd"@, Some("pxr/base/gf/quatd.h"@)),
        entry_view("Quatf"@, "[f32;4]"@, "pxr::GfQuatf"@, Some("pxr/base/gf/quatf.h"@)),
        entry_view("Quath"@, "[f16;4]"@, "pxr::GfQuath"@, Some("pxr/base/gf/quath.h"@)),
        entry_view("Vec2d"@, "[f64;2]"@, "pxr::GfVec2d"@, Some("pxr/base/gf/vec2d.h"@)),
        entry_view("Vec2f"@, "[f32;2]"@, "pxr::GfVec2f"@, Some("pxr/base/gf/vec2f.h"@)),
        entry_view("Vec2h"@, "[f16;2]"@, "pxr::GfVec2h"@, Some("pxr/base/gf/vec2h.h"@)),
        entry_view("Vec2i"@, "[i32;2]"@, "pxr::GfVec2i"@, Some("pxr/base/gf/vec2i.h"@)),
        entry_view("Vec3d"@, "[f64;3]"@, "pxr::GfVec3d"@, Some("pxr/base/gf/vec3d.h"@)),
        entry_view("Vec3f"@, "[f32;3]"@, "pxr::GfVec3f"@, Some("pxr/base/gf/vec3f.h"@)),
        entry_view("Vec3h"@, "[f16;3]"@, "pxr::GfVec3h"@, Some("pxr/base/gf/vec3h.h"@)),
        entry_view("Vec3i"@, "[i32;3]"@, "pxr::GfVec3i"@, Some("pxr/base/gf/vec3i.h"@)),
        entry_view("Vec4d"@, "[f64;4]"@, "pxr::GfVec4d"@, Some("pxr/base/gf/vec4d.h"@)),
        entry_view("Vec4f"@, "[f32;4]"@, "pxr::GfVec4f"@, Some("pxr/base/gf/vec4f.h"@)),
        entry_view("Vec4h"@, "[f16;4]"@, "pxr::GfVec4h"@, Some("pxr/base/gf/vec4h.h"@)),
        entry_view("Vec4i"@, "[i32;4]"@, "pxr::GfVec4i"@, Some("pxr/base/gf/vec4i.h"@)),
    ]
}

/// The basic value types of USD that values can be read and written as.
pub fn basic_types() -> (r: Vec<TypeDescriptor>)
    ensures
        table_view(r@) == basic_type_table(),
{
    let mut r: Vec<TypeDescriptor> = Vec::new();
    r.push(entry("Bool", "bool", "bool", None));
    r.push(entry("UChar", "u8", "uint8_t", None));
    r.push(entry("Int", "i32", "int32_t", None));
    r.push(entry("UInt", "u32", "uint32_t", None));
    r.push(entry("Int64", "i64", "int64_t", None));
    r.push(entry("UInt64", "u64", "uint64_t", None));
    r.push(entry("Half", "f16", "pxr::GfHalf", Some("pxr/base/gf/half.h")));
    r.push(entry("Float", "f32", "float", None));
    r.push(entry("Double", "f64", "double", None));
    r.push(entry("Token", "crate::pxr::tf::Token", "pxr::TfToken", Some("pxr/base/tf/token.h")));
    r.push(entry("Matrix2d", "[f64;2*2]", "pxr::GfMatrix2d", Some("pxr/base/gf/matrix2d.h")));
    r.push(entry("Matrix3d", "[f64;3*3]", "pxr::GfMatrix3d", Some("pxr/base/gf/matrix3d.h")));
    r.push(entry("Matrix4d", "[f64;4*4]", "pxr::GfMatrix4d", Some("pxr/base/gf/matrix4d.h")));
    r.push(entry("Quatd", "[f64;4]", "pxr::GfQuatd", Some("pxr/base/gf/quatd.h")));
    r.push(entry("Quatf", "[f32;4]", "pxr::GfQuatf", Some("pxr/base/gf/quatf.h")));
    r.push(entry("Quath", "[f16;4]", "pxr::GfQuath", Some("pxr/base/gf/quath.h")));
    r.push(entry("Vec2d", "[f64;2]", "pxr::GfVec2d", Some("pxr/base/gf/vec2d.h")));
    r.push(entry("Vec2f", "[f32;2]", "pxr::GfVec2f", Some("pxr/base/gf/vec2f.h")));
    r.push(entry("Vec2h", "[f16;2]", "pxr::GfVec2h", Some("pxr/base/gf/vec2h.h")));
    r.push(entry("Vec2i", "[i32;2]", "pxr::GfVec2i", Some("pxr/base/gf/vec2i.h")));
    r.push(entry("Vec3d", "[f64;3]", "pxr::GfVec3d", Some("pxr/base/gf/vec3d.h")));
    r.push(entry("Vec3f", "[f32;3]", "pxr::GfVec3f", Some("pxr/base/gf/vec3f.h")));
    r.push(entry("Vec3h", "[f16;3]", "pxr::GfVec3h", Some("pxr/base/gf/vec3h.h")));
    r.push(entry("Vec3i", "[i32;3]", "pxr::GfVec3i", Some("pxr/base/gf/vec3i.h")));
    r.push(entry("Vec4d", "[f64;4]", "pxr::GfVec4d", Some("pxr/base/gf/vec4d.h")));
    r.push(entry("Vec4f", "[f32;4]", "pxr::GfVec4f", Some("pxr/base/gf/vec4f.h")));
    r.push(entry("Vec4h", "[f16;4]", "pxr::GfVec4h", Some("pxr/base/gf/vec4h.h")));
    r.push(entry("Vec4i", "[i32;4]", "pxr::GfVec4i", Some("pxr/base/gf/vec4i.h")));
    assert(table_view(r@) =~= basic_type_table());
    r
}



/// Every name of the built-in table is an identifier, and none occurs twice.
#[verifier::rlimit(100)]
pub proof fn lemma_basic_table_valid()
    ensures
        table_valid(basic_type_table()),
{
    let t = basic_type_table();
    reveal_strlit("Bool");
    reveal_strlit("UChar");
    reveal_strlit("Int");
    reveal_strlit("UInt");
    reveal_strlit("Int64");
    reveal_strlit("UInt64");
    reveal_strlit("Half");
    reveal_strlit("Float");
    reveal_strlit("Double");
    reveal_strlit("Token");
    reveal_strlit("Matrix2d");
    reveal_strlit("Matrix3d");
    reveal_strlit("Matrix4d");
    reveal_strlit("Quatd");
    reveal_strlit("Quatf");
    reveal_strlit("Quath");
    reveal_strlit("Vec2d");
    reveal_strlit("Vec2f");
    reveal_strlit("Vec2h");
    reveal_strlit("Vec2i");
    reveal_strlit("Vec3d");
    reveal_strlit("Vec3f");
    reveal_strlit("Vec3h");
    reveal_strlit("Vec3i");
    reveal_strlit("Vec4d");
    reveal_strlit("Vec4f");
    reveal_strlit("Vec4h");
    reveal_strlit("Vec4i");
    assert forall|i: int| 0 <= i < t.len() implies is_identifier(#[trigger] t[i].logical_name) by {
    }
    assert forall|i: int, j: int| 0 <= j < i < t.len() implies (#[trigger] t[j]).logical_name != (#[trigger] t[i]).logical_name by {
        let a = t[j].logical_name;
        let b = t[i].logical_name;
        assert(a.len() != b.len() || a[0] != b[0] || a.last() != b.last() || a[a.len() - 2] != b[b.len() - 2]);
    }
    assert forall|i: int| 0 <= i < t.len() implies (#[trigger] problem_at(t, i)) is None by {
        assert(is_identifier(t[i].logical_name));
        assert(!repeats_earlier(t, i));
    }
}


/// The source of the built-in table's wrapper types, with `conversion` as
/// the template of each entry's conversion routines. The table is valid, so
/// this cannot fail.
pub fn generate_basic_types(conversion: &Vec<Piece>) -> (r: GeneratedSource)
    ensures
        r@ == generated_of(basic_type_table(), conversion@),
{
    proof {
        lemma_basic_table_valid();
    }
    let table = basic_types();
    match generate(&table, conversion) {
        Ok(source) => source,
        Err(_) => {
            assert(false);
            GeneratedSource {
                names: Vec::new(),
                headers: Vec::new(),
                declarations: String::new(),
                conversions: String::new(),
            }
        },
    }
}

} // verus!
