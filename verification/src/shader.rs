//! GLSL shader preprocessing: the table of shared shader functions and the
//! expansion of `#include` lines.
use vstd::prelude::*;

use crate::text::{
    chars_of, lines_of, push_chars, split_chars, split_lines, split_on, str_eq, string_of,
    string_push, views,
};

verus! {

/// The kind of pipeline a shader program belongs to.
#[allow(dead_code)]
pub enum ShaderStage {
    General,
    Compute,
}

/// The shared shader functions that a shader source may include by name.
#[derive(Clone, Copy, Debug, PartialEq, Eq, Structural)]
pub enum ShaderFunc {
    ColorSpaceConvert,
    VsMicros,
    FsMicros,
    FluidLayoutAndFn,
}

/// The name under which a shared shader function is included.
pub open spec fn shader_func_key(f: ShaderFunc) -> Seq<char> {
    match f {
        ShaderFunc::ColorSpaceConvert => "color_space_convert"@,
        ShaderFunc::VsMicros => "vs_micros"@,
        ShaderFunc::FsMicros => "fs_micros"@,
        ShaderFunc::FluidLayoutAndFn => "fluid_layout_and_fn"@,
    }
}

/// The shared shader function included under `key`, if any.
pub open spec fn lookup_shader_func(key: Seq<char>) -> Option<ShaderFunc> {
    if key == shader_func_key(ShaderFunc::ColorSpaceConvert) {
        Some(ShaderFunc::ColorSpaceConvert)
    } else if key == shader_func_key(ShaderFunc::VsMicros) {
        Some(ShaderFunc::VsMicros)
    } else if key == shader_func_key(ShaderFunc::FsMicros) {
        Some(ShaderFunc::FsMicros)
    } else if key == shader_func_key(ShaderFunc::FluidLayoutAndFn) {
        Some(ShaderFunc::FluidLayoutAndFn)
    } else {
        None
    }
}

/// The shared shader function named `key`, if any.
pub fn shader_func_by_key(key: &str) -> (f: Option<ShaderFunc>)
    ensures
        f == lookup_shader_func(key@),
{
    if str_eq(key, "color_space_convert") {
        Some(ShaderFunc::ColorSpaceConvert)
    } else if str_eq(key, "vs_micros") {
        Some(ShaderFunc::VsMicros)
    } else if str_eq(key, "fs_micros") {
        Some(ShaderFunc::FsMicros)
    } else if str_eq(key, "fluid_layout_and_fn") {
        Some(ShaderFunc::FluidLayoutAndFn)
    } else {
        None
    }
}

/// The sources of the shared shader functions.
pub struct ShaderFuncSources {
    pub color_space_convert: String,
    pub vs_micros: String,
    pub fs_micros: String,
    pub fluid_layout_and_fn: String,
}

impl ShaderFuncSources {
    /// The source text of `f`.
    pub open spec fn source(&self, f: ShaderFunc) -> Seq<char> {
        match f {
            ShaderFunc::ColorSpaceConvert => self.color_space_convert@,
            ShaderFunc::VsMicros => self.vs_micros@,
            ShaderFunc::FsMicros => self.fs_micros@,
            ShaderFunc::FluidLayoutAndFn => self.fluid_layout_and_fn@,
        }
    }

    /// The source text of `f`.
    pub fn get(&self, f: ShaderFunc) -> (s: &str)
        ensures
            s@ == self.source(f),
    {
        match f {
            ShaderFunc::ColorSpaceConvert => self.color_space_convert.as_str(),
            ShaderFunc::VsMicros => self.vs_micros.as_str(),
            ShaderFunc::FsMicros => self.fs_micros.as_str(),
            ShaderFunc::FluidLayoutAndFn => self.fluid_layout_and_fn.as_str(),
        }
    }
}

/// The source of the shared shader function named `key`, if there is one.
pub fn get_shader_funcs<'a>(funcs: &'a ShaderFuncSources, key: &str) -> (src: Option<&'a str>)
    ensures
        match lookup_shader_func(key@) {
            Some(f) => src is Some && src.unwrap()@ == funcs.source(f),
            None => src is None,
        },
{
    match shader_func_by_key(key) {
        Some(f) => Some(funcs.get(f)),
        None => None,
    }
}

/// The directive that starts an include line.
pub open spec fn include_prefix() -> Seq<char> {
    seq!['#', 'i', 'n', 'c', 'l', 'u', 'd', 'e', ' ']
}

/// Whether a line includes shared shader functions.
pub open spec fn is_include_line(l: Seq<char>) -> bool {
    l.len() >= 9 && l.take(9) == include_prefix()
}

/// The names listed on an include line, split at every comma.
pub open spec fn include_names(l: Seq<char>) -> Seq<Seq<char>> {
    split_on(l.skip(9), ',')
}

/// The text and the unresolved include names of two expansions, one after
/// the other.
pub open spec fn cat_expansion(
    a: (Seq<char>, Seq<Seq<char>>),
    b: (Seq<char>, Seq<Seq<char>>),
) -> (Seq<char>, Seq<Seq<char>>) {
    (a.0 + b.0, a.1 + b.1)
}

/// The expansion of the source text `s`: each line that is not an include
/// line is copied with a line ending `\n`; each include line is replaced by
/// the expansion of every shared function it names, in order, and names that
/// resolve to no function are collected. `depth` bounds the nesting of
/// includes; no include is followed below depth zero.
pub open spec fn expand_text(t: &ShaderFuncSources, s: Seq<char>, depth: nat) -> (
    Seq<char>,
    Seq<Seq<char>>,
)
    decreases depth, 3nat, 0nat,
{
    expand_lines(t, lines_of(s), depth)
}

/// The expansion of a sequence of lines (see `expand_text`).
pub open spec fn expand_lines(t: &ShaderFuncSources, ls: Seq<Seq<char>>, depth: nat) -> (
    Seq<char>,
    Seq<Seq<char>>,
)
    decreases depth, 2nat, ls.len(),
{
    if ls.len() == 0 {
        (seq![], seq![])
    } else {
        cat_expansion(expand_lines(t, ls.drop_last(), depth), expand_line(t, ls.last(), depth))
    }
}

/// The expansion of one line (see `expand_text`).
pub open spec fn expand_line(t: &ShaderFuncSources, l: Seq<char>, depth: nat) -> (
    Seq<char>,
    Seq<Seq<char>>,
)
    decreases depth, 1nat, 0nat,
{
    if is_include_line(l) {
        expand_imports(t, include_names(l), depth)
    } else {
        (l.push('\n'), seq![])
    }
}

/// The expansion of the names of an include line (see `expand_text`).
pub open spec fn expand_imports(t: &ShaderFuncSources, ps: Seq<Seq<char>>, depth: nat) -> (
    Seq<char>,
    Seq<Seq<char>>,
)
    decreases depth, 0nat, ps.len(),
{
    if ps.len() == 0 {
        (seq![], seq![])
    } else {
        cat_expansion(
            expand_imports(t, ps.drop_last(), depth),
            match lookup_shader_func(ps.last()) {
                Some(f) => if depth == 0 {
                    (seq![], seq![])
                } else {
                    expand_text(t, t.source(f), (depth - 1) as nat)
                },
                None => (seq![], seq![ps.last()]),
            },
        )
    }
}

/// Whether the source text `s` includes the shared function `g`.
pub open spec fn includes(s: Seq<char>, g: ShaderFunc) -> bool {
    exists|i: int, j: int|
        0 <= i < lines_of(s).len() && is_include_line(lines_of(s)[i]) && 0 <= j < include_names(
            lines_of(s)[i],
        ).len() && lookup_shader_func(#[trigger] include_names(lines_of(s)[i])[j]) == Some(g)
}

/// Whether a chain of `k` includes starts at the shared function `f`.
pub open spec fn include_walk(t: &ShaderFuncSources, f: ShaderFunc, k: nat) -> bool
    decreases k,
{
    if k == 0 {
        true
    } else {
        let k1 = (k - 1) as nat;
        ||| includes(t.source(f), ShaderFunc::ColorSpaceConvert) && include_walk(
            t,
            ShaderFunc::ColorSpaceConvert,
            k1,
        )
        ||| includes(t.source(f), ShaderFunc::VsMicros) && include_walk(t, ShaderFunc::VsMicros, k1)
        ||| includes(t.source(f), ShaderFunc::FsMicros) && include_walk(t, ShaderFunc::FsMicros, k1)
        ||| includes(t.source(f), ShaderFunc::FluidLayoutAndFn) && include_walk(
            t,
            ShaderFunc::FluidLayoutAndFn,
            k1,
        )
    }
}

/// A chain of `k` includes from a function that `g` includes extends to a
/// chain of `k + 1` includes from `g`.
proof fn lemma_walk_extend(t: &ShaderFuncSources, g: ShaderFunc, h: ShaderFunc, k: nat)
    requires
        includes(t.source(g), h),
        include_walk(t, h, k),
    ensures
        include_walk(t, g, k + 1),
{
    let k1: nat = k + 1;
    assert((k1 - 1) as nat == k);
}

/// Whether the shared functions include one another without a cycle: with
/// four functions, no chain of four includes exists.
pub open spec fn includes_acyclic(t: &ShaderFuncSources) -> bool {
    forall|f: ShaderFunc| !#[trigger] include_walk(t, f, 4)
}

/// The views of a sequence of strings.
pub open spec fn string_views(v: Seq<String>) -> Seq<Seq<char>> {
    v.map_values(|s: String| s@)
}

/// The full expansion of a shader source whose shared functions include one
/// another without a cycle.
pub open spec fn shader_expansion(t: &ShaderFuncSources, s: Seq<char>) -> (
    Seq<char>,
    Seq<Seq<char>>,
) {
    expand_text(t, s, 4)
}

/// Whether the first nine characters of `line` are the include directive.
fn starts_with_include(line: &Vec<char>) -> (r: bool)
    ensures
        r == is_include_line(line@),
{
    if line.len() < 9 {
        return false;
    }
    let prefix: [char; 9] = ['#', 'i', 'n', 'c', 'l', 'u', 'd', 'e', ' '];
    assert(prefix@ =~= include_prefix());
    let mut i: usize = 0;
    while i < 9
        invariant
            i <= 9,
            line@.len() >= 9,
            prefix@ == include_prefix(),
            forall|k: int| 0 <= k < i ==> line@[k] == prefix@[k],
        decreases 9 - i,
    {
        if line[i] != prefix[i] {
            assert(line@.take(9)[i as int] != include_prefix()[i as int]);
            return false;
        }
        i = i + 1;
    }
    assert(line@.take(9) =~= include_prefix());
    true
}

/// Expands `src` at nesting bound `depth` onto `out`, collecting unresolved
/// names in `missing`.
fn expand_into(
    t: &ShaderFuncSources,
    src: &str,
    out: &mut String,
    missing: &mut Vec<String>,
    Ghost(depth): Ghost<nat>,
)
    requires
        forall|g: ShaderFunc| includes(src@, g) ==> !include_walk(t, g, depth),
    ensures
        final(out)@ == old(out)@ + expand_text(t, src@, depth).0,
        string_views(final(missing)@) == string_views(old(missing)@) + expand_text(
            t,
            src@,
            depth,
        ).1,
    decreases depth, 1nat,
{
    let ghost out0 = out@;
    let ghost missing0 = string_views(missing@);
    let chars = chars_of(src);
    let lines = split_lines(&chars);
    let ghost ls = lines_of(src@);
    assert(ls.take(0) =~= Seq::<Seq<char>>::empty());
    let mut k: usize = 0;
    while k < lines.len()
        invariant
            k <= lines@.len(),
            views(lines@) == ls,
            ls == lines_of(src@),
            forall|g: ShaderFunc| includes(src@, g) ==> !include_walk(t, g, depth),
            out@ == out0 + expand_lines(t, ls.take(k as int), depth).0,
            string_views(missing@) == missing0 + expand_lines(t, ls.take(k as int), depth).1,
        decreases lines@.len() - k,
    {
        assert(ls.take(k + 1).drop_last() =~= ls.take(k as int));
        assert(ls.take(k + 1).last() == ls[k as int]);
        assert(lines@[k as int]@ == ls[k as int]);
        expand_line_into(t, &lines[k], out, missing, Ghost(depth), Ghost(src@), Ghost(k as int));
        assert(out@ =~= out0 + expand_lines(t, ls.take(k + 1), depth).0);
        assert(string_views(missing@) =~= missing0 + expand_lines(t, ls.take(k + 1), depth).1);
        k = k + 1;
    }
    assert(ls.take(lines@.len() as int) =~= ls);
}

/// Expands line `idx` of `src` at nesting bound `depth` onto `out`,
/// collecting unresolved names in `missing`.
fn expand_line_into(
    t: &ShaderFuncSources,
    line: &Vec<char>,
    out: &mut String,
    missing: &mut Vec<String>,
    Ghost(depth): Ghost<nat>,
    Ghost(src): Ghost<Seq<char>>,
    Ghost(idx): Ghost<int>,
)
    requires
        0 <= idx < lines_of(src).len(),
        lines_of(src)[idx] == line@,
        forall|g: ShaderFunc| includes(src, g) ==> !include_walk(t, g, depth),
    ensures
        final(out)@ == old(out)@ + expand_line(t, line@, depth).0,
        string_views(final(missing)@) == string_views(old(missing)@) + expand_line(
            t,
            line@,
            depth,
        ).1,
    decreases depth, 0nat,
{
    if !starts_with_include(line) {
        push_chars(out, line.as_slice());
        string_push(out, '\n');
        assert(out@ =~= old(out)@ + line@.push('\n'));
        assert(string_views(missing@) =~= string_views(old(missing)@) + Seq::<Seq<char>>::empty());
        return ;
    }
    let names = split_chars(line.as_slice(), 9, ',');
    let ghost ns = include_names(line@);
    let ghost out0 = out@;
    let ghost missing0 = string_views(missing@);
    assert(ns.take(0) =~= Seq::<Seq<char>>::empty());
    let mut j: usize = 0;
    while j < names.len()
        invariant
            j <= names@.len(),
            views(names@) == ns,
            ns == include_names(line@),
            is_include_line(line@),
            0 <= idx < lines_of(src).len(),
            lines_of(src)[idx] == line@,
            forall|g: ShaderFunc| includes(src, g) ==> !include_walk(t, g, depth),
            out@ == out0 + expand_imports(t, ns.take(j as int), depth).0,
            string_views(missing@) == missing0 + expand_imports(t, ns.take(j as int), depth).1,
        decreases names@.len() - j,
    {
        assert(ns.take(j + 1).drop_last() =~= ns.take(j as int));
        assert(ns.take(j + 1).last() == ns[j as int]);
        assert(names@[j as int]@ == ns[j as int]);
        let name = string_of(names[j].as_slice());
        match shader_func_by_key(name.as_str()) {
            Some(g) => {
                proof {
                    assert(lookup_shader_func(include_names(lines_of(src)[idx])[j as int])
                        == Some(g));
                    assert(includes(src, g));
                    assert(include_walk(t, g, 0));
                    assert(depth > 0);
                    assert forall|h: ShaderFunc|
                        includes(t.source(g), h) implies !include_walk(
                        t,
                        h,
                        (depth - 1) as nat,
                    ) by {
                        if include_walk(t, h, (depth - 1) as nat) {
                            lemma_walk_extend(t, g, h, (depth - 1) as nat);
                        }
                    }
                }
                let sub = t.get(g);
                expand_into(t, sub, out, missing, Ghost((depth - 1) as nat));
                assert(out@ =~= out0 + expand_imports(t, ns.take(j + 1), depth).0);
                assert(string_views(missing@) =~= missing0 + expand_imports(
                    t,
                    ns.take(j + 1),
                    depth,
                ).1);
            },
            None => {
                let ghost before = missing@;
                missing.push(name);
                assert(string_views(missing@) =~= string_views(before).push(ns[j as int]));
                assert(out@ =~= out0 + expand_imports(t, ns.take(j + 1), depth).0);
                assert(string_views(missing@) =~= missing0 + expand_imports(
                    t,
                    ns.take(j + 1),
                    depth,
                ).1);
            },
        }
        j = j + 1;
    }
    assert(ns.take(names@.len() as int) =~= ns);
}

/// Appends the expansion of `source` to `output`: lines are copied with a
/// `\n` ending, and every `#include` line is replaced by the expanded sources
/// of the shared functions it names, recursively. Returns the names on
/// include lines that name no shared function, in order of appearance.
pub fn parse_shader_source(source: &str, output: &mut String, funcs: &ShaderFuncSources) -> (missing:
    Vec<String>)
    requires
        includes_acyclic(funcs),
    ensures
        final(output)@ == old(output)@ + shader_expansion(funcs, source@).0,
        string_views(missing@) == shader_expansion(funcs, source@).1,
{
    let mut missing: Vec<String> = Vec::new();
    proof {
        assert forall|g: ShaderFunc| includes(source@, g) implies !include_walk(funcs, g, 4) by {
            assert(!include_walk(funcs, g, 4));
        }
        assert(string_views(missing@) =~= Seq::<Seq<char>>::empty());
    }
    expand_into(funcs, source, output, &mut missing, Ghost(4));
    assert(string_views(missing@) =~= shader_expansion(funcs, source@).1);
    missing
}

/// The shared function with index `i` in the order of the enum.
pub open spec fn func_of(i: int) -> ShaderFunc {
    if i == 0 {
        ShaderFunc::ColorSpaceConvert
    } else if i == 1 {
        ShaderFunc::VsMicros
    } else if i == 2 {
        ShaderFunc::FsMicros
    } else {
        ShaderFunc::FluidLayoutAndFn
    }
}

fn func_at(i: usize) -> (f: ShaderFunc)
    requires
        i < 4,
    ensures
        f == func_of(i as int),
{
    if i == 0 {
        ShaderFunc::ColorSpaceConvert
    } else if i == 1 {
        ShaderFunc::VsMicros
    } else if i == 2 {
        ShaderFunc::FsMicros
    } else {
        ShaderFunc::FluidLayoutAndFn
    }
}

/// Whether the source text `src` includes the shared function `g`.
pub fn source_includes(src: &str, g: ShaderFunc) -> (r: bool)
    ensures
        r == includes(src@, g),
{
    let chars = chars_of(src);
    let lines = split_lines(&chars);
    let ghost ls = lines_of(src@);
    let mut k: usize = 0;
    while k < lines.len()
        invariant
            k <= lines@.len(),
            views(lines@) == ls,
            ls == lines_of(src@),
            forall|i: int, j: int|
                0 <= i < k && is_include_line(ls[i]) && 0 <= j < include_names(ls[i]).len()
                    ==> lookup_shader_func(#[trigger] include_names(ls[i])[j]) != Some(g),
        decreases lines@.len() - k,
    {
        assert(lines@[k as int]@ == ls[k as int]);
        if starts_with_include(&lines[k]) {
            let names = split_chars(lines[k].as_slice(), 9, ',');
            let ghost ns = include_names(ls[k as int]);
            let mut j: usize = 0;
            while j < names.len()
                invariant
                    j <= names@.len(),
                    k < lines@.len(),
                    views(lines@) == ls,
                    views(names@) == ns,
                    ns == include_names(ls[k as int]),
                    is_include_line(ls[k as int]),
                    ls == lines_of(src@),
                    forall|jj: int| 0 <= jj < j ==> lookup_shader_func(#[trigger] ns[jj]) != Some(g),
                decreases names@.len() - j,
            {
                assert(names@[j as int]@ == ns[j as int]);
                let name = string_of(names[j].as_slice());
                match shader_func_by_key(name.as_str()) {
                    Some(f) => {
                        if f == g {
                            assert(lookup_shader_func(include_names(lines_of(src@)[k as int])[j as int])
                                == Some(g));
                            assert(0 <= k < lines_of(src@).len());
                            assert(0 <= j < include_names(lines_of(src@)[k as int]).len());
                            return true;
                        }
                    },
                    None => {},
                }
                j = j + 1;
            }
        }
        k = k + 1;
    }
    false
}

/// Whether a chain of `k` includes starts at function `i`, given the include
/// relation `deps` (`deps[4 * a + b]`: function `a` includes function `b`).
fn walk_in(deps: &Vec<bool>, i: usize, k: u32, Ghost(t): Ghost<&ShaderFuncSources>) -> (r: bool)
    requires
        i < 4,
        deps@.len() == 16,
        forall|a: int, b: int|
            0 <= a < 4 && 0 <= b < 4 ==> #[trigger] deps@[4 * a + b] == includes(
                t.source(func_of(a)),
                func_of(b),
            ),
    ensures
        r == include_walk(t, func_of(i as int), k as nat),
    decreases k,
{
    if k == 0 {
        return true;
    }
    let base = 4 * i;
    let w0 = deps[base] && walk_in(deps, 0, k - 1, Ghost(t));
    let w1 = deps[base + 1] && walk_in(deps, 1, k - 1, Ghost(t));
    let w2 = deps[base + 2] && walk_in(deps, 2, k - 1, Ghost(t));
    let w3 = deps[base + 3] && walk_in(deps, 3, k - 1, Ghost(t));
    proof {
        assert(deps@[4 * (i as int) + 0] == includes(t.source(func_of(i as int)), func_of(0)));
        assert(deps@[4 * (i as int) + 1] == includes(t.source(func_of(i as int)), func_of(1)));
        assert(deps@[4 * (i as int) + 2] == includes(t.source(func_of(i as int)), func_of(2)));
        assert(deps@[4 * (i as int) + 3] == includes(t.source(func_of(i as int)), func_of(3)));
    }
    w0 || w1 || w2 || w3
}

impl ShaderFuncSources {
    /// Whether the shared functions include one another without a cycle, the
    /// condition under which `parse_shader_source` terminates.
    pub fn is_acyclic(&self) -> (r: bool)
        ensures
            r == includes_acyclic(self),
            r == !has_include_cycle(self),
    {
        proof {
            lemma_acyclic_iff_no_cycle(self);
        }
        let mut deps: Vec<bool> = Vec::new();
        let mut a: usize = 0;
        while a < 4
            invariant
                a <= 4,
                deps@.len() == 4 * a,
                forall|x: int, y: int|
                    0 <= x < a && 0 <= y < 4 ==> #[trigger] deps@[4 * x + y] == includes(
                        self.source(func_of(x)),
                        func_of(y),
                    ),
            decreases 4 - a,
        {
            let src = self.get(func_at(a));
            let mut b: usize = 0;
            while b < 4
                invariant
                    a < 4,
                    b <= 4,
                    src@ == self.source(func_of(a as int)),
                    deps@.len() == 4 * a + b,
                    forall|x: int, y: int|
                        0 <= x < a && 0 <= y < 4 ==> #[trigger] deps@[4 * x + y] == includes(
                            self.source(func_of(x)),
                            func_of(y),
                        ),
                    forall|y: int|
                        0 <= y < b ==> #[trigger] deps@[4 * a + y] == includes(
                            self.source(func_of(a as int)),
                            func_of(y),
                        ),
                decreases 4 - b,
            {
                let d = source_includes(src, func_at(b));
                deps.push(d);
                b = b + 1;
            }
            a = a + 1;
        }
        let r = !walk_in(&deps, 0, 4, Ghost(self)) && !walk_in(&deps, 1, 4, Ghost(self))
            && !walk_in(&deps, 2, 4, Ghost(self)) && !walk_in(&deps, 3, 4, Ghost(self));
        proof {
            assert forall|f: ShaderFunc| #![auto] r ==> !include_walk(self, f, 4) by {
                match f {
                    ShaderFunc::ColorSpaceConvert => assert(f == func_of(0)),
                    ShaderFunc::VsMicros => assert(f == func_of(1)),
                    ShaderFunc::FsMicros => assert(f == func_of(2)),
                    ShaderFunc::FluidLayoutAndFn => assert(f == func_of(3)),
                }
            }
        }
        r
    }
}

/// Every name on the include line `ps` that resolves names a function from
/// which no chain of `d` includes starts.
pub open spec fn names_safe(t: &ShaderFuncSources, ps: Seq<Seq<char>>, d: nat) -> bool {
    forall|j: int|
        0 <= j < ps.len() ==> match lookup_shader_func(#[trigger] ps[j]) {
            Some(g) => !include_walk(t, g, d),
            None => true,
        }
}

/// Every include line among `ls` is safe at nesting bound `d`.
pub open spec fn lines_safe(t: &ShaderFuncSources, ls: Seq<Seq<char>>, d: nat) -> bool {
    forall|i: int|
        0 <= i < ls.len() && is_include_line(#[trigger] ls[i]) ==> names_safe(
            t,
            include_names(ls[i]),
            d,
        )
}

/// A source none of whose includes starts a chain of `d` includes is safe at
/// nesting bound `d`.
proof fn lemma_safe_from_includes(t: &ShaderFuncSources, s: Seq<char>, d: nat)
    requires
        forall|g: ShaderFunc| includes(s, g) ==> !include_walk(t, g, d),
    ensures
        lines_safe(t, lines_of(s), d),
{
    assert forall|i: int|
        0 <= i < lines_of(s).len() && is_include_line(
            #[trigger] lines_of(s)[i],
        ) implies names_safe(t, include_names(lines_of(s)[i]), d) by {
        assert forall|j: int| 0 <= j < include_names(lines_of(s)[i]).len() implies match lookup_shader_func(
            #[trigger] include_names(lines_of(s)[i])[j],
        ) {
            Some(g) => !include_walk(t, g, d),
            None => true,
        } by {
            match lookup_shader_func(include_names(lines_of(s)[i])[j]) {
                Some(g) => {
                    assert(includes(s, g));
                },
                None => {},
            }
        }
    }
}

/// A function from which no chain of `d + 1` includes starts includes only
/// functions from which no chain of `d` includes starts.
proof fn lemma_source_safe(t: &ShaderFuncSources, g: ShaderFunc, d: nat)
    requires
        !include_walk(t, g, d + 1),
    ensures
        lines_safe(t, lines_of(t.source(g)), d),
{
    assert forall|h: ShaderFunc| includes(t.source(g), h) implies !include_walk(t, h, d) by {
        if include_walk(t, h, d) {
            lemma_walk_extend(t, g, h, d);
        }
    }
    lemma_safe_from_includes(t, t.source(g), d);
}

/// Expanding safe text gives the same result at every nesting bound from `d1`
/// up.
proof fn lemma_text_stable(t: &ShaderFuncSources, s: Seq<char>, d1: nat, d2: nat)
    requires
        lines_safe(t, lines_of(s), d1),
        d1 <= d2,
    ensures
        expand_text(t, s, d1) == expand_text(t, s, d2),
    decreases d1, 3nat, 0nat,
{
    lemma_lines_stable(t, lines_of(s), d1, d2);
}

proof fn lemma_lines_stable(t: &ShaderFuncSources, ls: Seq<Seq<char>>, d1: nat, d2: nat)
    requires
        lines_safe(t, ls, d1),
        d1 <= d2,
    ensures
        expand_lines(t, ls, d1) == expand_lines(t, ls, d2),
    decreases d1, 2nat, ls.len(),
{
    if ls.len() > 0 {
        assert(lines_safe(t, ls.drop_last(), d1)) by {
            assert forall|i: int|
                0 <= i < ls.drop_last().len() && is_include_line(
                    #[trigger] ls.drop_last()[i],
                ) implies names_safe(t, include_names(ls.drop_last()[i]), d1) by {
                assert(ls.drop_last()[i] == ls[i]);
            }
        }
        lemma_lines_stable(t, ls.drop_last(), d1, d2);
        if is_include_line(ls.last()) {
            assert(ls.last() == ls[ls.len() - 1]);
            lemma_imports_stable(t, include_names(ls.last()), d1, d2);
        }
        assert(expand_line(t, ls.last(), d1) == expand_line(t, ls.last(), d2));
        assert(expand_lines(t, ls, d1) == cat_expansion(
            expand_lines(t, ls.drop_last(), d1),
            expand_line(t, ls.last(), d1),
        ));
        assert(expand_lines(t, ls, d2) == cat_expansion(
            expand_lines(t, ls.drop_last(), d2),
            expand_line(t, ls.last(), d2),
        ));
    }
}

proof fn lemma_imports_stable(t: &ShaderFuncSources, ps: Seq<Seq<char>>, d1: nat, d2: nat)
    requires
        names_safe(t, ps, d1),
        d1 <= d2,
    ensures
        expand_imports(t, ps, d1) == expand_imports(t, ps, d2),
    decreases d1, 0nat, ps.len(),
{
    if ps.len() > 0 {
        assert(names_safe(t, ps.drop_last(), d1)) by {
            assert forall|j: int| 0 <= j < ps.drop_last().len() implies match lookup_shader_func(
                #[trigger] ps.drop_last()[j],
            ) {
                Some(g) => !include_walk(t, g, d1),
                None => true,
            } by {
                assert(ps.drop_last()[j] == ps[j]);
            }
        }
        lemma_imports_stable(t, ps.drop_last(), d1, d2);
        assert(ps.last() == ps[ps.len() - 1]);
        match lookup_shader_func(ps.last()) {
            Some(g) => {
                assert(!include_walk(t, g, d1));
                assert(d1 > 0);
                lemma_source_safe(t, g, (d1 - 1) as nat);
                lemma_text_stable(t, t.source(g), (d1 - 1) as nat, (d2 - 1) as nat);
            },
            None => {},
        }
    }
}

/// The state of the line splitter on text without line feeds.
proof fn lemma_lines_state_no_newline(s: Seq<char>)
    requires
        forall|i: int| 0 <= i < s.len() ==> s[i] != '\n',
    ensures
        crate::text::lines_state(s) == (Seq::<Seq<char>>::empty(), s),
    decreases s.len(),
{
    if s.len() > 0 {
        lemma_lines_state_no_newline(s.drop_last());
        assert(s.drop_last().push(s.last()) =~= s);
    }
}

/// The state of the splitter on text without the separator.
proof fn lemma_split_state_no_sep(s: Seq<char>, sep: char)
    requires
        forall|i: int| 0 <= i < s.len() ==> s[i] != sep,
    ensures
        crate::text::split_state(s, sep) == (Seq::<Seq<char>>::empty(), s),
    decreases s.len(),
{
    if s.len() > 0 {
        lemma_split_state_no_sep(s.drop_last(), sep);
        assert(s.drop_last().push(s.last()) =~= s);
    }
}

/// The keys of the shared functions are distinct and hold neither line feeds
/// nor commas.
proof fn lemma_keys_plain(f: ShaderFunc)
    ensures
        lookup_shader_func(shader_func_key(f)) == Some(f),
        shader_func_key(f).len() > 0,
        forall|i: int|
            0 <= i < shader_func_key(f).len() ==> shader_func_key(f)[i] != '\n'
                && shader_func_key(f)[i] != ',',
{
    reveal_strlit("color_space_convert");
    reveal_strlit("vs_micros");
    reveal_strlit("fs_micros");
    reveal_strlit("fluid_layout_and_fn");
    let a = shader_func_key(ShaderFunc::ColorSpaceConvert);
    let b = shader_func_key(ShaderFunc::VsMicros);
    let c = shader_func_key(ShaderFunc::FsMicros);
    let d = shader_func_key(ShaderFunc::FluidLayoutAndFn);
    assert(a.len() != b.len() && a.len() != c.len() && a[0] != d[0]);
    assert(b[0] != c[0] && b.len() != d.len() && c.len() != d.len());
}

/// An include line naming a shared function expands exactly as the source of
/// that function does: the include is replaced by the expanded source, and
/// the names it leaves unresolved are those the source leaves unresolved.
pub proof fn lemma_include_line_expands_to_source(t: &ShaderFuncSources, f: ShaderFunc)
    requires
        includes_acyclic(t),
    ensures
        shader_expansion(t, include_prefix() + shader_func_key(f)) == shader_expansion(
            t,
            t.source(f),
        ),
{
    let key = shader_func_key(f);
    let line = include_prefix() + key;
    lemma_keys_plain(f);
    assert forall|i: int| 0 <= i < line.len() implies line[i] != '\n' by {
        if i >= 9 {
            assert(line[i] == key[i - 9]);
        }
    }
    lemma_lines_state_no_newline(line);
    assert(lines_of(line) =~= seq![line]);
    assert(line.take(9) =~= include_prefix());
    assert(line.skip(9) =~= key);
    lemma_split_state_no_sep(key, ',');
    assert(include_names(line) =~= seq![key]);
    assert(seq![key].drop_last() =~= Seq::<Seq<char>>::empty());
    assert(seq![line].drop_last() =~= Seq::<Seq<char>>::empty());
    assert(!include_walk(t, f, 4));
    lemma_source_safe(t, f, 3);
    lemma_text_stable(t, t.source(f), 3, 4);
    let e = expand_text(t, t.source(f), 3);
    let z: (Seq<char>, Seq<Seq<char>>) = (seq![], seq![]);
    assert(seq![key].last() == key);
    assert(expand_imports(t, seq![key].drop_last(), 4) == z);
    assert(expand_imports(t, seq![key], 4) == cat_expansion(z, e));
    assert(cat_expansion(z, e).0 =~= e.0);
    assert(cat_expansion(z, e).1 =~= e.1);
    assert(seq![line].last() == line);
    assert(expand_lines(t, seq![line].drop_last(), 4) == z);
    assert(expand_line(t, line, 4) == expand_imports(t, seq![key], 4));
    assert(expand_lines(t, seq![line], 4) == cat_expansion(z, expand_line(t, line, 4)));
    assert(cat_expansion(z, cat_expansion(z, e)).0 =~= e.0);
    assert(cat_expansion(z, cat_expansion(z, e)).1 =~= e.1);
}

/// A name that resolves to no shared function expands to nothing and is
/// reported as unresolved.
pub proof fn lemma_unknown_include_reported(t: &ShaderFuncSources, name: Seq<char>)
    requires
        lookup_shader_func(name) is None,
        forall|i: int| 0 <= i < name.len() ==> name[i] != '\n' && name[i] != ',',
    ensures
        shader_expansion(t, include_prefix() + name) == (Seq::<char>::empty(), seq![name]),
{
    let line = include_prefix() + name;
    assert forall|i: int| 0 <= i < line.len() implies line[i] != '\n' by {
        if i >= 9 {
            assert(line[i] == name[i - 9]);
        }
    }
    lemma_lines_state_no_newline(line);
    assert(lines_of(line) =~= seq![line]);
    assert(line.take(9) =~= include_prefix());
    assert(line.skip(9) =~= name);
    lemma_split_state_no_sep(name, ',');
    assert(include_names(line) =~= seq![name]);
    assert(seq![name].drop_last() =~= Seq::<Seq<char>>::empty());
    assert(seq![line].drop_last() =~= Seq::<Seq<char>>::empty());
    let z: (Seq<char>, Seq<Seq<char>>) = (seq![], seq![]);
    let e: (Seq<char>, Seq<Seq<char>>) = (seq![], seq![name]);
    assert(seq![name].last() == name);
    assert(expand_imports(t, seq![name].drop_last(), 4) == z);
    assert(expand_imports(t, seq![name], 4) == cat_expansion(z, e));
    assert(seq![line].last() == line);
    assert(expand_lines(t, seq![line].drop_last(), 4) == z);
    assert(expand_line(t, line, 4) == expand_imports(t, seq![name], 4));
    assert(expand_lines(t, seq![line], 4) == cat_expansion(z, expand_line(t, line, 4)));
    assert(cat_expansion(z, cat_expansion(z, e)).0 =~= e.0);
    assert(cat_expansion(z, cat_expansion(z, e)).1 =~= e.1);
}

/// The expansion of lines none of which is an include line: every line is
/// copied followed by a line feed, nothing is unresolved, and the shared
/// functions play no part.
pub open spec fn plain_text(ls: Seq<Seq<char>>) -> Seq<char>
    decreases ls.len(),
{
    if ls.len() == 0 {
        seq![]
    } else {
        plain_text(ls.drop_last()) + ls.last().push('\n')
    }
}

/// Text without include lines expands to its lines, each ended by a line
/// feed, whatever the shared functions hold.
pub proof fn lemma_plain_text_expansion(t: &ShaderFuncSources, s: Seq<char>)
    requires
        forall|i: int| 0 <= i < lines_of(s).len() ==> !is_include_line(#[trigger] lines_of(s)[i]),
    ensures
        shader_expansion(t, s) == (plain_text(lines_of(s)), Seq::<Seq<char>>::empty()),
{
    lemma_plain_lines(t, lines_of(s));
}

proof fn lemma_plain_lines(t: &ShaderFuncSources, ls: Seq<Seq<char>>)
    requires
        forall|i: int| 0 <= i < ls.len() ==> !is_include_line(#[trigger] ls[i]),
    ensures
        expand_lines(t, ls, 4) == (plain_text(ls), Seq::<Seq<char>>::empty()),
    decreases ls.len(),
{
    if ls.len() > 0 {
        assert forall|i: int| 0 <= i < ls.drop_last().len() implies !is_include_line(
            #[trigger] ls.drop_last()[i],
        ) by {
            assert(ls.drop_last()[i] == ls[i]);
        }
        lemma_plain_lines(t, ls.drop_last());
        assert(!is_include_line(ls[ls.len() - 1]));
        assert(ls.last() == ls[ls.len() - 1]);
        assert(expand_line(t, ls.last(), 4) == (ls.last().push('\n'), Seq::<Seq<char>>::empty()));
        assert(expand_lines(t, ls, 4) == cat_expansion(
            expand_lines(t, ls.drop_last(), 4),
            expand_line(t, ls.last(), 4),
        ));
        assert(Seq::<Seq<char>>::empty() + Seq::<Seq<char>>::empty() =~= Seq::<Seq<char>>::empty());
    }
}

/// The stage a GLSL source file is compiled for.
#[derive(Clone, Copy, Debug, PartialEq, Eq, Structural)]
pub enum ShaderKind {
    Vertex,
    Fragment,
    Compute,
}

/// The file suffix of a GLSL source for a stage.
pub open spec fn shader_suffix(kind: ShaderKind) -> Seq<char> {
    match kind {
        ShaderKind::Vertex => ".vs.glsl"@,
        ShaderKind::Fragment => ".fs.glsl"@,
        ShaderKind::Compute => ".comp.glsl"@,
    }
}

/// The file name of the GLSL source of shader `name` for a stage.
pub fn shader_file_name(name: &str, kind: ShaderKind) -> (file: String)
    ensures
        file@ == name@ + shader_suffix(kind),
{
    let mut file = String::new();
    file.append(name);
    match kind {
        ShaderKind::Vertex => file.append(".vs.glsl"),
        ShaderKind::Fragment => file.append(".fs.glsl"),
        ShaderKind::Compute => file.append(".comp.glsl"),
    }
    assert(file@ =~= name@ + shader_suffix(kind));
    file
}

/// The version directive that starts every generated shader.
pub open spec fn shader_version_line() -> Seq<char> {
    "#version 450\n"@
}

/// The text handed to the GLSL compiler for the source `code`: the version
/// directive followed by the expansion of `code`, and the include names that
/// resolve to no shared function.
pub fn preprocess_shader_source(code: &str, funcs: &ShaderFuncSources) -> (r: (String, Vec<String>))
    requires
        includes_acyclic(funcs),
    ensures
        r.0@ == shader_version_line() + shader_expansion(funcs, code@).0,
        string_views(r.1@) == shader_expansion(funcs, code@).1,
{
    let mut shader_source = String::new();
    shader_source.append("#version 450\n");
    let missing = parse_shader_source(code, &mut shader_source, funcs);
    (shader_source, missing)
}


/// The names of an include line are expanded one after the other, each the
/// same way wherever it stands: the expansion of the names `ps` followed by
/// `qs` is the expansion of `ps` followed by the expansion of `qs`.
pub proof fn lemma_imports_concat(
    t: &ShaderFuncSources,
    ps: Seq<Seq<char>>,
    qs: Seq<Seq<char>>,
    depth: nat,
)
    ensures
        expand_imports(t, ps + qs, depth) == cat_expansion(
            expand_imports(t, ps, depth),
            expand_imports(t, qs, depth),
        ),
    decreases qs.len(),
{
    let e = expand_imports(t, ps, depth);
    if qs.len() == 0 {
        assert(ps + qs =~= ps);
        assert(e.0 + Seq::<char>::empty() =~= e.0);
        assert(e.1 + Seq::<Seq<char>>::empty() =~= e.1);
    } else {
        lemma_imports_concat(t, ps, qs.drop_last(), depth);
        assert((ps + qs).drop_last() =~= ps + qs.drop_last());
        assert((ps + qs).last() == qs.last());
        let a = expand_imports(t, qs.drop_last(), depth);
        let m = expand_imports(t, ps + qs, depth);
        let last = match lookup_shader_func(qs.last()) {
            Some(f) => if depth == 0 {
                (Seq::<char>::empty(), Seq::<Seq<char>>::empty())
            } else {
                expand_text(t, t.source(f), (depth - 1) as nat)
            },
            None => (Seq::<char>::empty(), seq![qs.last()]),
        };
        assert(m == cat_expansion(cat_expansion(e, a), last));
        assert(expand_imports(t, qs, depth) == cat_expansion(a, last));
        assert(m.0 =~= e.0 + (a.0 + last.0));
        assert(m.1 =~= e.1 + (a.1 + last.1));
    }
}

/// The lines of a text are expanded one after the other: the expansion of
/// the lines `ls` followed by `ms` is the expansion of `ls` followed by the
/// expansion of `ms`.
pub proof fn lemma_lines_concat(
    t: &ShaderFuncSources,
    ls: Seq<Seq<char>>,
    ms: Seq<Seq<char>>,
    depth: nat,
)
    ensures
        expand_lines(t, ls + ms, depth) == cat_expansion(
            expand_lines(t, ls, depth),
            expand_lines(t, ms, depth),
        ),
    decreases ms.len(),
{
    let e = expand_lines(t, ls, depth);
    if ms.len() == 0 {
        assert(ls + ms =~= ls);
        assert(e.0 + Seq::<char>::empty() =~= e.0);
        assert(e.1 + Seq::<Seq<char>>::empty() =~= e.1);
    } else {
        lemma_lines_concat(t, ls, ms.drop_last(), depth);
        assert((ls + ms).drop_last() =~= ls + ms.drop_last());
        assert((ls + ms).last() == ms.last());
        let a = expand_lines(t, ms.drop_last(), depth);
        let last = expand_line(t, ms.last(), depth);
        let m = expand_lines(t, ls + ms, depth);
        assert(m == cat_expansion(cat_expansion(e, a), last));
        assert(expand_lines(t, ms, depth) == cat_expansion(a, last));
        assert(m.0 =~= e.0 + (a.0 + last.0));
        assert(m.1 =~= e.1 + (a.1 + last.1));
    }
}

/// Appending text without the separator extends the piece being read.
proof fn lemma_split_state_append_plain(x: Seq<char>, y: Seq<char>, sep: char)
    requires
        forall|i: int| 0 <= i < y.len() ==> y[i] != sep,
    ensures
        crate::text::split_state(x + y, sep) == (
            crate::text::split_state(x, sep).0,
            crate::text::split_state(x, sep).1 + y,
        ),
    decreases y.len(),
{
    if y.len() == 0 {
        assert(x + y =~= x);
        assert(crate::text::split_state(x, sep).1 + y =~= crate::text::split_state(x, sep).1);
    } else {
        lemma_split_state_append_plain(x, y.drop_last(), sep);
        assert((x + y).drop_last() =~= x + y.drop_last());
        assert((x + y).last() == y.last());
        assert(crate::text::split_state(x, sep).1 + y =~= (crate::text::split_state(x, sep).1
            + y.drop_last()).push(y.last()));
    }
}

/// The include line naming one shared function expands, at the full bound,
/// to the expansion of that function's source.
proof fn lemma_single_import(t: &ShaderFuncSources, f: ShaderFunc)
    requires
        includes_acyclic(t),
    ensures
        expand_imports(t, seq![shader_func_key(f)], 4) == shader_expansion(t, t.source(f)),
{
    let key = shader_func_key(f);
    lemma_keys_plain(f);
    assert(!include_walk(t, f, 4));
    lemma_source_safe(t, f, 3);
    lemma_text_stable(t, t.source(f), 3, 4);
    let e = expand_text(t, t.source(f), 3);
    let z: (Seq<char>, Seq<Seq<char>>) = (seq![], seq![]);
    assert(seq![key].drop_last() =~= Seq::<Seq<char>>::empty());
    assert(seq![key].last() == key);
    assert(expand_imports(t, seq![key].drop_last(), 4) == z);
    assert(expand_imports(t, seq![key], 4) == cat_expansion(z, e));
    assert(cat_expansion(z, e).0 =~= e.0);
    assert(cat_expansion(z, e).1 =~= e.1);
}

/// The include line naming two shared functions is one line whose names are
/// the two keys.
proof fn lemma_pair_line(f: ShaderFunc, g: ShaderFunc)
    ensures
        ({
            let line = include_prefix() + shader_func_key(f) + seq![','] + shader_func_key(g);
            &&& lines_of(line) == seq![line]
            &&& is_include_line(line)
            &&& include_names(line) == seq![shader_func_key(f), shader_func_key(g)]
        }),
{
    let kf = shader_func_key(f);
    let kg = shader_func_key(g);
    lemma_keys_plain(f);
    lemma_keys_plain(g);
    let names = kf + seq![','] + kg;
    let line = include_prefix() + names;
    assert(line =~= include_prefix() + kf + seq![','] + kg);
    assert forall|i: int| 0 <= i < line.len() implies line[i] != '\n' by {
        if 9 <= i < 9 + kf.len() {
            assert(line[i] == kf[i - 9]);
        } else if i >= 10 + kf.len() {
            assert(line[i] == kg[i - 10 - kf.len()]);
        }
    }
    lemma_lines_state_no_newline(line);
    assert(lines_of(line) =~= seq![line]);
    assert(line.take(9) =~= include_prefix());
    assert(line.skip(9) =~= names);
    lemma_split_state_no_sep(kf, ',');
    assert(kf.push(',') =~= kf + seq![',']);
    assert(kf.push(',').drop_last() =~= kf);
    assert(crate::text::split_state(kf.push(','), ',') == (seq![kf], Seq::<char>::empty())) by {
        assert(Seq::<Seq<char>>::empty().push(kf) =~= seq![kf]);
    }
    lemma_split_state_append_plain(kf.push(','), kg, ',');
    assert(kf.push(',') + kg =~= names);
    assert(Seq::<char>::empty() + kg =~= kg);
    assert(include_names(line) =~= seq![kf, kg]);
}

/// An include line naming two shared functions includes both, whichever
/// comes first, and no other.
pub proof fn lemma_include_pair_includes(f: ShaderFunc, g: ShaderFunc)
    ensures
        ({
            let line = include_prefix() + shader_func_key(f) + seq![','] + shader_func_key(g);
            &&& includes(line, f)
            &&& includes(line, g)
            &&& forall|h: ShaderFunc| includes(line, h) ==> h == f || h == g
        }),
{
    lemma_pair_line(f, g);
    lemma_keys_plain(f);
    lemma_keys_plain(g);
    let line = include_prefix() + shader_func_key(f) + seq![','] + shader_func_key(g);
    assert(lines_of(line)[0] == line);
    assert(include_names(lines_of(line)[0])[0] == shader_func_key(f));
    assert(include_names(lines_of(line)[0])[1] == shader_func_key(g));
    assert(includes(line, f));
    assert(includes(line, g));
}

/// An include line naming two shared functions expands to the expansion of
/// the first function's source followed by that of the second, each with
/// its own includes expanded in turn.
pub proof fn lemma_include_pair_expands_in_order(
    t: &ShaderFuncSources,
    f: ShaderFunc,
    g: ShaderFunc,
)
    requires
        includes_acyclic(t),
    ensures
        shader_expansion(t, include_prefix() + shader_func_key(f) + seq![','] + shader_func_key(g))
            == cat_expansion(shader_expansion(t, t.source(f)), shader_expansion(t, t.source(g))),
{
    let kf = shader_func_key(f);
    let kg = shader_func_key(g);
    let line = include_prefix() + kf + seq![','] + kg;
    lemma_pair_line(f, g);
    assert(seq![kf, kg] =~= seq![kf] + seq![kg]);
    lemma_imports_concat(t, seq![kf], seq![kg], 4);
    lemma_single_import(t, f);
    lemma_single_import(t, g);
    let e = expand_imports(t, seq![kf, kg], 4);
    let z: (Seq<char>, Seq<Seq<char>>) = (seq![], seq![]);
    assert(seq![line].drop_last() =~= Seq::<Seq<char>>::empty());
    assert(seq![line].last() == line);
    assert(expand_lines(t, seq![line].drop_last(), 4) == z);
    assert(expand_line(t, line, 4) == e);
    assert(expand_lines(t, seq![line], 4) == cat_expansion(z, e));
    assert(cat_expansion(z, e).0 =~= e.0);
    assert(cat_expansion(z, e).1 =~= e.1);
}


/// Whether each function of `p` includes the next one.
pub open spec fn include_chain(t: &ShaderFuncSources, p: Seq<ShaderFunc>) -> bool {
    forall|i: int| 0 <= i < p.len() - 1 ==> #[trigger] includes(t.source(p[i]), p[i + 1])
}

/// Whether some shared function reaches itself through one or more includes.
pub open spec fn has_include_cycle(t: &ShaderFuncSources) -> bool {
    exists|p: Seq<ShaderFunc>| #[trigger] include_chain(t, p) && p.len() >= 2 && p[0] == p[p.len() - 1]
}

/// A chain of `k` includes from `f`, as the functions it passes.
proof fn lemma_walk_chain(t: &ShaderFuncSources, f: ShaderFunc, k: nat) -> (p: Seq<ShaderFunc>)
    requires
        include_walk(t, f, k),
    ensures
        p.len() == k + 1,
        p[0] == f,
        include_chain(t, p),
    decreases k,
{
    if k == 0 {
        seq![f]
    } else {
        let k1 = (k - 1) as nat;
        let g = if includes(t.source(f), ShaderFunc::ColorSpaceConvert) && include_walk(
            t,
            ShaderFunc::ColorSpaceConvert,
            k1,
        ) {
            ShaderFunc::ColorSpaceConvert
        } else if includes(t.source(f), ShaderFunc::VsMicros) && include_walk(
            t,
            ShaderFunc::VsMicros,
            k1,
        ) {
            ShaderFunc::VsMicros
        } else if includes(t.source(f), ShaderFunc::FsMicros) && include_walk(
            t,
            ShaderFunc::FsMicros,
            k1,
        ) {
            ShaderFunc::FsMicros
        } else {
            ShaderFunc::FluidLayoutAndFn
        };
        let q = lemma_walk_chain(t, g, k1);
        let p = seq![f] + q;
        assert forall|i: int| 0 <= i < p.len() - 1 implies #[trigger] includes(
            t.source(p[i]),
            p[i + 1],
        ) by {
            if i == 0 {
                assert(p[1] == q[0]);
            } else {
                assert(p[i] == q[i - 1]);
                assert(p[i + 1] == q[i]);
                assert(includes(t.source(q[i - 1]), q[(i - 1) + 1]));
            }
        }
        p
    }
}

/// Every function on a cycle starts chains of includes of every length.
proof fn lemma_cycle_walks(t: &ShaderFuncSources, c: Seq<ShaderFunc>, k: nat)
    requires
        include_chain(t, c),
        c.len() >= 2,
        c[0] == c[c.len() - 1],
    ensures
        forall|j: int| 0 <= j < c.len() ==> include_walk(t, #[trigger] c[j], k),
    decreases k,
{
    if k > 0 {
        let k1 = (k - 1) as nat;
        lemma_cycle_walks(t, c, k1);
        assert forall|j: int| 0 <= j < c.len() implies include_walk(t, #[trigger] c[j], k) by {
            let m = c.len() - 1;
            let jj = if j == m {
                0
            } else {
                j
            };
            assert(c[jj] == c[j]);
            assert(includes(t.source(c[jj]), c[jj + 1]));
            assert(include_walk(t, c[jj + 1], k1));
            lemma_walk_extend(t, c[jj], c[jj + 1], k1);
            assert(k1 + 1 == k);
        }
    }
}

/// Among five shared functions two are the same.
proof fn lemma_five_repeat(p: Seq<ShaderFunc>) -> (ij: (int, int))
    requires
        p.len() == 5,
    ensures
        0 <= ij.0 < ij.1 < 5,
        p[ij.0] == p[ij.1],
{
    if p[0] == p[1] {
        (0, 1)
    } else if p[0] == p[2] {
        (0, 2)
    } else if p[0] == p[3] {
        (0, 3)
    } else if p[0] == p[4] {
        (0, 4)
    } else if p[1] == p[2] {
        (1, 2)
    } else if p[1] == p[3] {
        (1, 3)
    } else if p[1] == p[4] {
        (1, 4)
    } else if p[2] == p[3] {
        (2, 3)
    } else if p[2] == p[4] {
        (2, 4)
    } else {
        assert(p[3] == p[4]) by {
            assert(p[0] is ColorSpaceConvert || p[0] is VsMicros || p[0] is FsMicros
                || p[0] is FluidLayoutAndFn);
        }
        (3, 4)
    }
}

/// The shared functions include one another without a cycle exactly when no
/// function reaches itself through its includes: a chain of includes is
/// refused only for coming back to where it passed, never for its length.
pub proof fn lemma_acyclic_iff_no_cycle(t: &ShaderFuncSources)
    ensures
        includes_acyclic(t) <==> !has_include_cycle(t),
{
    if !includes_acyclic(t) {
        let f = choose|f: ShaderFunc| #[trigger] include_walk(t, f, 4);
        let p = lemma_walk_chain(t, f, 4);
        let (i, j) = lemma_five_repeat(p);
        let c = p.subrange(i, j + 1);
        assert forall|a: int| 0 <= a < c.len() - 1 implies #[trigger] includes(
            t.source(c[a]),
            c[a + 1],
        ) by {
            assert(c[a] == p[i + a]);
            assert(c[a + 1] == p[(i + a) + 1]);
            assert(includes(t.source(p[i + a]), p[(i + a) + 1]));
        }
        assert(include_chain(t, c));
        assert(c[0] == c[c.len() - 1]);
    }
    if has_include_cycle(t) {
        let c = choose|c: Seq<ShaderFunc>|
            #[trigger] include_chain(t, c) && c.len() >= 2 && c[0] == c[c.len() - 1];
        lemma_cycle_walks(t, c, 4);
        assert(include_walk(t, c[0], 4));
    }
}

/// The lines read so far, each ended by a line feed, followed by the line
/// being read give back the text read, when it holds no carriage return.
proof fn lemma_lines_state_rebuilds(s: Seq<char>)
    requires
        forall|i: int| 0 <= i < s.len() ==> s[i] != '\r',
    ensures
        plain_text(crate::text::lines_state(s).0) + crate::text::lines_state(s).1 == s,
        forall|i: int|
            0 <= i < crate::text::lines_state(s).1.len() ==> crate::text::lines_state(s).1[i]
                != '\n',
    decreases s.len(),
{
    if s.len() > 0 {
        let p = s.drop_last();
        lemma_lines_state_rebuilds(p);
        let (done, cur) = crate::text::lines_state(p);
        assert(s =~= p.push(s.last()));
        if s.last() == '\n' {
            assert(cur.len() > 0 ==> cur.last() == cur[cur.len() - 1]);
            assert(crate::text::strip_cr(cur) == cur) by {
                if cur.len() > 0 {
                    assert(cur[cur.len() - 1] == (plain_text(done) + cur)[plain_text(done).len() + cur.len() - 1]);
                    assert(p[p.len() - 1] != '\r');
                }
            }
            let d2 = done.push(cur);
            assert(d2.drop_last() =~= done);
            assert(d2.last() == cur);
            assert(plain_text(d2) == plain_text(done) + cur.push('\n'));
            assert(plain_text(d2) + Seq::<char>::empty() =~= s);
        } else {
            assert(plain_text(done) + cur.push(s.last()) =~= s);
            assert forall|i: int| 0 <= i < cur.push(s.last()).len() implies cur.push(s.last())[i] != '\n' by {
                if i < cur.len() {
                    assert(cur.push(s.last())[i] == cur[i]);
                }
            }
        }
    }
}

/// Splitting a text without carriage returns into lines loses nothing: the
/// lines, each ended by a line feed, give back the text, with a line feed
/// added when the text does not already end with one.
pub proof fn lemma_lines_rebuild_text(s: Seq<char>)
    requires
        forall|i: int| 0 <= i < s.len() ==> s[i] != '\r',
    ensures
        plain_text(lines_of(s)) == if s.len() == 0 || s.last() == '\n' {
            s
        } else {
            s.push('\n')
        },
        forall|i: int, j: int|
            0 <= i < lines_of(s).len() && 0 <= j < lines_of(s)[i].len() ==> lines_of(s)[i][j]
                != '\n',
{
    lemma_lines_state_rebuilds(s);
    lemma_lines_state_no_newline_parts(s);
    let (done, cur) = crate::text::lines_state(s);
    if cur.len() == 0 {
        assert(plain_text(done) + cur =~= plain_text(done));
        if s.len() > 0 && s.last() != '\n' {
            assert(s.len() > 0);
            assert(crate::text::lines_state(s).1 == crate::text::lines_state(s.drop_last()).1.push(
                s.last(),
            ));
        }
    } else {
        let d2 = done.push(cur);
        assert(d2.drop_last() =~= done);
        assert(d2.last() == cur);
        assert(plain_text(d2) == plain_text(done) + cur.push('\n'));
        assert(plain_text(done) + cur.push('\n') =~= (plain_text(done) + cur).push('\n'));
        assert(s.len() > 0);
        assert(s.last() != '\n') by {
            assert(s.last() == cur.last());
        }
    }
}

/// The lines completed and the line being read hold no line feed.
proof fn lemma_lines_state_no_newline_parts(s: Seq<char>)
    ensures
        forall|i: int, j: int|
            0 <= i < crate::text::lines_state(s).0.len() && 0 <= j < crate::text::lines_state(
                s,
            ).0[i].len() ==> crate::text::lines_state(s).0[i][j] != '\n',
        forall|j: int|
            0 <= j < crate::text::lines_state(s).1.len() ==> crate::text::lines_state(s).1[j]
                != '\n',
        forall|i: int, j: int|
            0 <= i < lines_of(s).len() && 0 <= j < lines_of(s)[i].len() ==> lines_of(s)[i][j]
                != '\n',
    decreases s.len(),
{
    if s.len() > 0 {
        lemma_lines_state_no_newline_parts(s.drop_last());
        let (done, cur) = crate::text::lines_state(s.drop_last());
        if s.last() == '\n' {
            let l = crate::text::strip_cr(cur);
            assert forall|j: int| 0 <= j < l.len() implies l[j] != '\n' by {
                assert(l[j] == cur[j]);
            }
            assert forall|i: int, j: int|
                0 <= i < done.push(l).len() && 0 <= j < done.push(l)[i].len() implies done.push(
                    l,
                )[i][j] != '\n' by {
                if i < done.len() {
                    assert(done.push(l)[i] == done[i]);
                }
            }
        } else {
            assert forall|j: int| 0 <= j < cur.push(s.last()).len() implies cur.push(s.last())[j]
                != '\n' by {
                if j < cur.len() {
                    assert(cur.push(s.last())[j] == cur[j]);
                }
            }
        }
    }
    let (done, cur) = crate::text::lines_state(s);
    if cur.len() > 0 {
        assert forall|i: int, j: int|
            0 <= i < done.push(cur).len() && 0 <= j < done.push(cur)[i].len() implies done.push(
                cur,
            )[i][j] != '\n' by {
            if i < done.len() {
                assert(done.push(cur)[i] == done[i]);
            }
        }
    }
}

} // verus!
