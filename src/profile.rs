//! Profiles, their expansion into concrete assignments, and the script text
//! of an assignment.

use vstd::prelude::*;
use itertools::Itertools;
use crate::scalar::{Scalar, ScalarModel, literal, copy_text};

verus! {

pub open spec fn row_view(r: Seq<Scalar>) -> Seq<ScalarModel> {
    r.map_values(|x: Scalar| x@)
}

pub open spec fn rows_view(rs: Seq<Vec<Scalar>>) -> Seq<Seq<ScalarModel>> {
    rs.map_values(|r: Vec<Scalar>| row_view(r@))
}

pub open spec fn texts_view(ts: Seq<String>) -> Seq<Seq<char>> {
    ts.map_values(|t: String| t@)
}

/// Every choice of one value from each list, in the order of the standard
/// enumeration: the last list advances fastest. No lists give the one empty
/// choice; an empty list gives none.
pub open spec fn cross(lists: Seq<Seq<ScalarModel>>) -> Seq<Seq<ScalarModel>>
    decreases lists.len(),
{
    if lists.len() == 0 {
        seq![Seq::empty()]
    } else {
        let prev = cross(lists.drop_last());
        let last = lists.last();
        Seq::new(
            prev.len() * last.len(),
            |k: int| prev[k / (last.len() as int)].push(last[k % (last.len() as int)]),
        )
    }
}

/// The rows of `s` with every repeat of an earlier row left out.
pub open spec fn distinct_first(s: Seq<Seq<ScalarModel>>) -> Seq<Seq<ScalarModel>>
    decreases s.len(),
{
    if s.len() == 0 {
        s
    } else {
        let d = distinct_first(s.drop_last());
        if d.contains(s.last()) {
            d
        } else {
            d.push(s.last())
        }
    }
}

/// The parts in order, with `sep` between neighbours.
pub open spec fn joined(parts: Seq<Seq<char>>, sep: Seq<char>) -> Seq<char>
    decreases parts.len(),
{
    if parts.len() == 0 {
        Seq::empty()
    } else if parts.len() == 1 {
        parts[0]
    } else {
        joined(parts.drop_last(), sep) + sep + parts.last()
    }
}

/// Relies on itertools' `multi_cartesian_product`: the cartesian product of
/// the lists, last list fastest, with one empty row for no lists.
#[verifier::external_body]
fn cartesian(lists: &Vec<Vec<Scalar>>) -> (r: Vec<Vec<Scalar>>)
    ensures
        rows_view(r@) == cross(rows_view(lists@)),
{
    lists.iter().cloned().map(IntoIterator::into_iter).multi_cartesian_product().collect()
}

/// Relies on itertools' `join`: the parts in order with `sep` between
/// neighbours, and the empty string for no parts.
#[verifier::external_body]
fn join_parts(parts: &Vec<String>, sep: &str) -> (r: String)
    ensures
        r@ == joined(texts_view(parts@), sep@),
{
    parts.iter().join(sep)
}

/// A declared profile: the script to include, the module to invoke, and for
/// each parameter, in declared order, its candidate values.
pub struct Profile {
    script_path: String,
    module_name: String,
    params: Vec<(String, Vec<Scalar>)>,
}

/// The mathematical value of a [`Profile`]: its parameter names and their
/// candidate lists, position by position.
pub struct ProfileModel {
    pub script_path: Seq<char>,
    pub module_name: Seq<char>,
    pub keys: Seq<Seq<char>>,
    pub lists: Seq<Seq<ScalarModel>>,
}

pub open spec fn profile_model(
    script_path: Seq<char>,
    module_name: Seq<char>,
    params: Seq<(String, Vec<Scalar>)>,
) -> ProfileModel {
    ProfileModel {
        script_path,
        module_name,
        keys: params.map_values(|p: (String, Vec<Scalar>)| p.0@),
        lists: params.map_values(|p: (String, Vec<Scalar>)| row_view(p.1@)),
    }
}

impl View for Profile {
    type V = ProfileModel;

    closed spec fn view(&self) -> ProfileModel {
        profile_model(self.script_path@, self.module_name@, self.params@)
    }
}

/// One concrete assignment of values to a profile's parameters.
pub struct CompiledProfile {
    name: String,
    script_path: String,
    module_name: String,
    param_keys: Vec<String>,
    params: Vec<Scalar>,
}

/// The mathematical value of a [`CompiledProfile`].
pub struct Assignment {
    pub name: Seq<char>,
    pub script_path: Seq<char>,
    pub module_name: Seq<char>,
    pub param_keys: Seq<Seq<char>>,
    pub params: Seq<ScalarModel>,
}

impl View for CompiledProfile {
    type V = Assignment;

    closed spec fn view(&self) -> Assignment {
        Assignment {
            name: self.name@,
            script_path: self.script_path@,
            module_name: self.module_name@,
            param_keys: texts_view(self.param_keys@),
            params: row_view(self.params@),
        }
    }
}

pub open spec fn assignments_view(s: Seq<CompiledProfile>) -> Seq<Assignment> {
    s.map_values(|c: CompiledProfile| c@)
}

/// The assignment of a profile named `name` that takes the values `row`.
pub open spec fn assignment_of(name: Seq<char>, p: ProfileModel, row: Seq<ScalarModel>) -> Assignment {
    Assignment {
        name,
        script_path: p.script_path,
        module_name: p.module_name,
        param_keys: p.keys,
        params: row,
    }
}

/// The distinct assignments of a profile, in cross-product order.
pub open spec fn expansion(name: Seq<char>, p: ProfileModel) -> Seq<Assignment> {
    distinct_first(cross(p.lists)).map_values(|row: Seq<ScalarModel>| assignment_of(name, p, row))
}

fn rows_equal(a: &Vec<Scalar>, b: &Vec<Scalar>) -> (r: bool)
    ensures
        r == (row_view(a@) == row_view(b@)),
{
    if a.len() != b.len() {
        assert(row_view(a@).len() != row_view(b@).len());
        return false;
    }
    let mut i: usize = 0;
    while i < a.len()
        invariant
            a.len() == b.len(),
            0 <= i <= a.len(),
            forall|j: int| 0 <= j < i ==> a@[j]@ == b@[j]@,
        decreases a.len() - i,
    {
        if !a[i].same(&b[i]) {
            assert(row_view(a@)[i as int] != row_view(b@)[i as int]);
            return false;
        }
        i += 1;
    }
    assert(row_view(a@) =~= row_view(b@));
    true
}

fn contains_row(rows: &Vec<Vec<Scalar>>, row: &Vec<Scalar>) -> (r: bool)
    ensures
        r == rows_view(rows@).contains(row_view(row@)),
{
    let mut i: usize = 0;
    while i < rows.len()
        invariant
            0 <= i <= rows.len(),
            forall|j: int| 0 <= j < i ==> row_view(#[trigger] rows@[j]@) != row_view(row@),
        decreases rows.len() - i,
    {
        if rows_equal(&rows[i], row) {
            assert(rows_view(rows@)[i as int] == row_view(row@));
            return true;
        }
        i += 1;
    }
    assert(!rows_view(rows@).contains(row_view(row@))) by {
        if rows_view(rows@).contains(row_view(row@)) {
            let k = choose|k: int| 0 <= k < rows_view(rows@).len() && rows_view(rows@)[k] == row_view(row@);
            assert(row_view(rows@[k]@) == row_view(row@));
        }
    }
    false
}

fn copy_row(row: &Vec<Scalar>) -> (r: Vec<Scalar>)
    ensures
        row_view(r@) == row_view(row@),
{
    let mut out: Vec<Scalar> = Vec::new();
    let mut i: usize = 0;
    while i < row.len()
        invariant
            0 <= i <= row.len(),
            out@.len() == i,
            forall|j: int| 0 <= j < i ==> #[trigger] out@[j]@ == row@[j]@,
        decreases row.len() - i,
    {
        out.push(row[i].duplicate());
        i += 1;
    }
    assert(row_view(out@) =~= row_view(row@));
    out
}

fn copy_texts(ts: &Vec<String>) -> (r: Vec<String>)
    ensures
        texts_view(r@) == texts_view(ts@),
{
    let mut out: Vec<String> = Vec::new();
    let mut i: usize = 0;
    while i < ts.len()
        invariant
            0 <= i <= ts.len(),
            out@.len() == i,
            forall|j: int| 0 <= j < i ==> #[trigger] out@[j]@ == ts@[j]@,
        decreases ts.len() - i,
    {
        out.push(copy_text(&ts[i]));
        i += 1;
    }
    assert(texts_view(out@) =~= texts_view(ts@));
    out
}

fn distinct_rows(rows: &Vec<Vec<Scalar>>) -> (r: Vec<Vec<Scalar>>)
    ensures
        rows_view(r@) == distinct_first(rows_view(rows@)),
{
    let mut out: Vec<Vec<Scalar>> = Vec::new();
    let mut i: usize = 0;
    while i < rows.len()
        invariant
            0 <= i <= rows.len(),
            rows_view(out@) == distinct_first(rows_view(rows@).take(i as int)),
        decreases rows.len() - i,
    {
        let ghost before = rows_view(rows@).take(i as int);
        let ghost after = rows_view(rows@).take(i as int + 1);
        assert(after.drop_last() =~= before);
        assert(after.last() == row_view(rows@[i as int]@));
        if !contains_row(&out, &rows[i]) {
            let c = copy_row(&rows[i]);
            out.push(c);
            assert(rows_view(out@) =~= distinct_first(before).push(after.last()));
        }
        i += 1;
    }
    assert(rows_view(rows@).take(rows.len() as int) =~= rows_view(rows@));
    out
}

impl Profile {
    /// A profile has one candidate list per parameter name.
    pub proof fn lemma_well_formed(&self)
        ensures
            self@.keys.len() == self@.lists.len(),
    {
    }

    pub fn new(script_path: String, module_name: String, params: Vec<(String, Vec<Scalar>)>) -> (r: Profile)
        requires
            profile_model(script_path@, module_name@, params@).keys.no_duplicates(),
        ensures
            r@ == profile_model(script_path@, module_name@, params@),
    {
        Profile { script_path, module_name, params }
    }

    /// The distinct assignments of this profile under the name `name`.
    fn expand(&self, name: &String) -> (r: Vec<CompiledProfile>)
        ensures
            assignments_view(r@) == expansion(name@, self@),
    {
        let ghost model = self@;
        let mut keys: Vec<String> = Vec::new();
        let mut lists: Vec<Vec<Scalar>> = Vec::new();
        let mut i: usize = 0;
        while i < self.params.len()
            invariant
                0 <= i <= self.params.len(),
                model == self@,
                keys@.len() == i,
                lists@.len() == i,
                forall|j: int| 0 <= j < i ==> #[trigger] keys@[j]@ == model.keys[j],
                forall|j: int| 0 <= j < i ==> row_view(#[trigger] lists@[j]@) == model.lists[j],
            decreases self.params.len() - i,
        {
            keys.push(copy_text(&self.params[i].0));
            lists.push(copy_row(&self.params[i].1));
            i += 1;
        }
        assert(texts_view(keys@) =~= model.keys);
        assert(rows_view(lists@) =~= model.lists);
        let all = cartesian(&lists);
        let rows = distinct_rows(&all);
        let ghost want = expansion(name@, model);
        let mut out: Vec<CompiledProfile> = Vec::new();
        let mut j: usize = 0;
        while j < rows.len()
            invariant
                0 <= j <= rows.len(),
                model == self@,
                texts_view(keys@) == model.keys,
                rows_view(rows@) == distinct_first(cross(model.lists)),
                want == expansion(name@, model),
                want.len() == rows.len(),
                out@.len() == j,
                forall|k: int| 0 <= k < j ==> #[trigger] out@[k]@ == want[k],
            decreases rows.len() - j,
        {
            let c = CompiledProfile {
                name: copy_text(name),
                script_path: copy_text(&self.script_path),
                module_name: copy_text(&self.module_name),
                param_keys: copy_texts(&keys),
                params: copy_row(&rows[j]),
            };
            assert(row_view(rows@[j as int]@) == rows_view(rows@)[j as int]);
            out.push(c);
            j += 1;
        }
        assert(assignments_view(out@) =~= want);
        out
    }
}

/// A configuration: named profiles, in the order given, no name twice.
pub struct Settings {
    profiles: Vec<(String, Profile)>,
}

pub open spec fn settings_model(profiles: Seq<(String, Profile)>) -> Seq<(Seq<char>, ProfileModel)> {
    profiles.map_values(|p: (String, Profile)| (p.0@, p.1@))
}

impl View for Settings {
    type V = Seq<(Seq<char>, ProfileModel)>;

    closed spec fn view(&self) -> Seq<(Seq<char>, ProfileModel)> {
        settings_model(self.profiles@)
    }
}

/// Each profile's name beside its distinct assignments, in the order of the
/// profiles.
pub open spec fn compiled(s: Seq<(Seq<char>, ProfileModel)>, r: Seq<(String, Vec<CompiledProfile>)>) -> bool {
    &&& r.len() == s.len()
    &&& forall|k: int|
        0 <= k < r.len() ==> (#[trigger] r[k]).0@ == s[k].0 && assignments_view(r[k].1@)
            == expansion(s[k].0, s[k].1)
}

/// The names of the profiles, in order.
pub open spec fn profile_names(profiles: Seq<(Seq<char>, ProfileModel)>) -> Seq<Seq<char>> {
    profiles.map_values(|p: (Seq<char>, ProfileModel)| p.0)
}

impl Settings {
    pub fn new(profiles: Vec<(String, Profile)>) -> (r: Settings)
        requires
            profile_names(settings_model(profiles@)).no_duplicates(),
        ensures
            r@ == settings_model(profiles@),
    {
        Settings { profiles }
    }

    /// Expands every profile into its distinct assignments.
    pub fn compile_profiles(self) -> (r: Vec<(String, Vec<CompiledProfile>)>)
        ensures
            compiled(self@, r@),
    {
        let ghost model = self@;
        let mut out: Vec<(String, Vec<CompiledProfile>)> = Vec::new();
        let mut k: usize = 0;
        while k < self.profiles.len()
            invariant
                0 <= k <= self.profiles.len(),
                model == self@,
                out@.len() == k,
                forall|m: int|
                    0 <= m < k ==> (#[trigger] out@[m]).0@ == model[m].0 && assignments_view(
                        out@[m].1@,
                    ) == expansion(model[m].0, model[m].1),
            decreases self.profiles.len() - k,
        {
            let name = &self.profiles[k].0;
            let assignments = self.profiles[k].1.expand(name);
            out.push((copy_text(name), assignments));
            k += 1;
        }
        out
    }
}

/// One `key=value` argument of the module call.
pub open spec fn argument(key: Seq<char>, value: ScalarModel) -> Seq<char> {
    key + "="@ + literal(value)
}

/// The arguments of the module call: keys and values paired in order.
pub open spec fn arguments(a: Assignment) -> Seq<Seq<char>> {
    let n = if a.param_keys.len() <= a.params.len() {
        a.param_keys.len()
    } else {
        a.params.len()
    };
    Seq::new(n, |i: int| argument(a.param_keys[i], a.params[i]))
}

/// The script of an assignment: a line that includes the script file, then
/// the call of the module with its named arguments.
pub open spec fn script_text(a: Assignment) -> Seq<char> {
    "include <"@ + a.script_path + ">\n"@ + a.module_name + "("@ + joined(arguments(a), ", "@)
        + ");"@
}

/// The values' literal texts joined by underscores.
pub open spec fn file_stem(a: Assignment) -> Seq<char> {
    joined(a.params.map_values(|v: ScalarModel| literal(v)), "_"@)
}

/// The index of the last `c` in `s`, or -1 where there is none.
pub open spec fn last_index_of(s: Seq<char>, c: char) -> int
    decreases s.len(),
{
    if s.len() == 0 {
        -1
    } else if s.last() == c {
        s.len() - 1
    } else {
        last_index_of(s.drop_last(), c)
    }
}

/// What follows the last `/` of a path.
pub open spec fn final_component(s: Seq<char>) -> Seq<char> {
    s.subrange(last_index_of(s, '/') + 1, s.len() as int)
}

/// The length of a file name's stem: the name up to its last dot, or the
/// whole name where it has no dot or its only dot opens it.
pub open spec fn stem_len(f: Seq<char>) -> int {
    let k = last_index_of(f, '.');
    if k <= 0 {
        f.len() as int
    } else {
        k
    }
}

/// The path with its final component's extension replaced by `ext`: cut
/// after the stem, then a dot and `ext`.
pub open spec fn path_with_extension(s: Seq<char>, ext: Seq<char>) -> Seq<char> {
    let f = final_component(s);
    s.take(s.len() - f.len() + stem_len(f)) + "."@ + ext
}

/// A path that every platform reads alike and that ends in a file name:
/// not empty, no backslash or colon, no `/` at either end, and a final
/// component other than `.` and `..`.
pub open spec fn ordinary_path(s: Seq<char>) -> bool {
    &&& s.len() > 0
    &&& forall|i: int| 0 <= i < s.len() ==> #[trigger] s[i] != '\\' && s[i] != ':'
    &&& s[0] != '/'
    &&& s.last() != '/'
    &&& final_component(s) != seq!['.']
    &&& final_component(s) != seq!['.', '.']
}

/// A path without dots that every platform reads alike and that ends in a
/// file name: not empty, no colon, no separator at either end.
pub open spec fn dotless_path(s: Seq<char>) -> bool {
    &&& s.len() > 0
    &&& forall|i: int| 0 <= i < s.len() ==> #[trigger] s[i] != '.' && s[i] != ':'
    &&& s[0] != '/' && s[0] != '\\'
    &&& s.last() != '/' && s.last() != '\\'
}

/// An extension that a path can take: not empty, with no separator.
pub open spec fn extension_text(e: Seq<char>) -> bool {
    &&& e.len() > 0
    &&& forall|i: int| 0 <= i < e.len() ==> #[trigger] e[i] != '/' && e[i] != '\\'
}

/// Relies on `std::path::PathBuf::set_extension`: where the path has a file
/// name, the path is cut after that name's stem and a dot and `ext` follow;
/// the empty path has no file name and stays as it is. It panics on an
/// extension with a separator, which `requires` leaves out.
#[verifier::external_body]
fn with_extension(path: &str, ext: &str) -> (r: String)
    requires
        extension_text(ext@),
    ensures
        path@.len() == 0 ==> r@ == path@,
        dotless_path(path@) ==> r@ == path@ + "."@ + ext@,
        ordinary_path(path@) ==> r@ == path_with_extension(path@, ext@),
{
    let mut p = std::path::PathBuf::from(path);
    p.set_extension(ext);
    p.to_string_lossy().into_owned()
}

impl CompiledProfile {
    pub fn new(
        name: String,
        script_path: String,
        module_name: String,
        param_keys: Vec<String>,
        params: Vec<Scalar>,
    ) -> (r: CompiledProfile)
        requires
            param_keys.len() == params.len(),
        ensures
            r@ == (Assignment {
                name: name@,
                script_path: script_path@,
                module_name: module_name@,
                param_keys: texts_view(param_keys@),
                params: row_view(params@),
            }),
    {
        CompiledProfile { name, script_path, module_name, param_keys, params }
    }

    /// Appends this assignment's script to `out`.
    pub fn write_script(&self, out: &mut String)
        ensures
            final(out)@ == old(out)@ + script_text(self@),
    {
        let n: usize = if self.param_keys.len() <= self.params.len() {
            self.param_keys.len()
        } else {
            self.params.len()
        };
        let ghost want = arguments(self@);
        let mut args: Vec<String> = Vec::new();
        let mut i: usize = 0;
        while i < n
            invariant
                0 <= i <= n,
                n <= self.param_keys.len(),
                n <= self.params.len(),
                want == arguments(self@),
                want.len() == n,
                args@.len() == i,
                forall|j: int| 0 <= j < i ==> #[trigger] args@[j]@ == want[j],
            decreases n - i,
        {
            let mut arg = copy_text(&self.param_keys[i]);
            arg.append("=");
            let value = self.params[i].literal_text();
            arg.append(value.as_str());
            assert(self@.param_keys[i as int] == self.param_keys@[i as int]@);
            assert(self@.params[i as int] == self.params@[i as int]@);
            args.push(arg);
            i += 1;
        }
        assert(texts_view(args@) =~= want);
        let joined_args = join_parts(&args, ", ");
        out.append("include <");
        out.append(self.script_path.as_str());
        out.append(">\n");
        out.append(self.module_name.as_str());
        out.append("(");
        out.append(joined_args.as_str());
        out.append(");");
        assert(final(out)@ =~= old(out)@ + script_text(self@));
    }

    /// The name of a file for this assignment: the values' literals joined by
    /// underscores, with its extension set to `3mf`.
    pub fn output_filename(&self) -> (r: String)
        ensures
            file_stem(self@).len() == 0 ==> r@.len() == 0,
            dotless_path(file_stem(self@)) ==> r@ == file_stem(self@) + ".3mf"@,
            ordinary_path(file_stem(self@)) ==> r@ == path_with_extension(file_stem(self@), "3mf"@),
            dotless_path(file_stem(self@)) || ordinary_path(file_stem(self@)) ==> r@.len() >= 4
                && r@.subrange(r@.len() - 4, r@.len() as int) == ".3mf"@,
    {
        let mut parts: Vec<String> = Vec::new();
        let mut i: usize = 0;
        while i < self.params.len()
            invariant
                0 <= i <= self.params.len(),
                parts@.len() == i,
                forall|j: int| 0 <= j < i ==> #[trigger] parts@[j]@ == literal(self.params@[j]@),
            decreases self.params.len() - i,
        {
            parts.push(self.params[i].literal_text());
            i += 1;
        }
        assert(texts_view(parts@) =~= self@.params.map_values(|v: ScalarModel| literal(v)));
        let stem = join_parts(&parts, "_");
        proof {
            reveal_strlit("3mf");
            reveal_strlit(".");
            reveal_strlit(".3mf");
            assert(extension_text("3mf"@));
            assert("."@ + "3mf"@ =~= ".3mf"@);
        }
        let r = with_extension(stem.as_str(), "3mf");
        proof {
            let st = file_stem(self@);
            if dotless_path(st) {
                assert(r@ =~= st + ".3mf"@);
                assert(r@.subrange(r@.len() - 4, r@.len() as int) =~= ".3mf"@);
            }
            if ordinary_path(st) {
                let head = st.take(st.len() - final_component(st).len() + stem_len(final_component(st)));
                assert(r@ =~= head + ".3mf"@);
                assert(r@.subrange(r@.len() - 4, r@.len() as int) =~= ".3mf"@);
            }
        }
        r
    }

    pub fn name(&self) -> (r: &str)
        ensures
            r@ == self@.name,
    {
        self.name.as_str()
    }

    pub fn params(&self) -> (r: &[Scalar])
        ensures
            row_view(r@) == self@.params,
    {
        self.params.as_slice()
    }

    /// A copy of the assignment's values.
    pub fn values(&self) -> (r: Vec<Scalar>)
        ensures
            row_view(r@) == self@.params,
    {
        copy_row(&self.params)
    }

    pub fn script_path(&self) -> (r: &str)
        ensures
            r@ == self@.script_path,
    {
        self.script_path.as_str()
    }

    pub fn module_name(&self) -> (r: &str)
        ensures
            r@ == self@.module_name,
    {
        self.module_name.as_str()
    }

    pub fn param_keys(&self) -> (r: &[String])
        ensures
            texts_view(r@) == self@.param_keys,
    {
        self.param_keys.as_slice()
    }
}

} // verus!
