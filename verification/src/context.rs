//! The project context that the rules query: which functions a header
//! declares, which belong to a GObject type, and the like.

use vstd::prelude::*;

use crate::model::function::FunctionInfo;
use crate::model::project::{
    declares, file_declares, function_prefix_of, has_extension, lookup_file, path_has_extension,
    FileModel,
    Project,
};
use crate::text::{chars_of, ends_with, has_prefix, has_suffix, slice_chars, starts_with, str_eq,
    str_in, str_views, string_from_chars,
};

verus! {

/// The parsed project that the rules look at.
#[derive(Debug)]
pub struct AstContext {
    pub project: Project,
}

/// The endings of the functions that GObject generates for a type:
/// `prefix_class_init`, `prefix_init`, `prefix_finalize`, ...
pub open spec fn lifecycle_suffixes() -> Seq<Seq<char>> {
    seq![
        "_class_init"@,
        "_init"@,
        "_finalize"@,
        "_dispose"@,
        "_constructed"@,
        "_set_property"@,
        "_get_property"@,
    ]
}

/// A name that the visibility rule never reports: `main`, type registration
/// and error quark functions, and the lifecycle functions of GObject types.
pub open spec fn is_special_name(name: Seq<char>) -> bool {
    ||| name == "main"@
    ||| has_suffix(name, "_get_type"@)
    ||| has_suffix(name, "_error_quark"@)
    ||| exists|k: int| 0 <= k < lifecycle_suffixes().len() && has_suffix(name, #[trigger] lifecycle_suffixes()[k])
}

/// `name` is one of the functions that GObject generates for a type with the
/// function prefix `prefix`.
pub open spec fn generated_for(prefix: Seq<char>, name: Seq<char>) -> bool {
    has_prefix(name, prefix) && lifecycle_suffixes().contains(name.skip(prefix.len() as int))
}

/// Some header of `files` declares a function named `name`.
pub open spec fn declared_in_header(files: Seq<FileModel>, name: Seq<char>) -> bool {
    exists|i: int|
        0 <= i < files.len() && has_extension((#[trigger] files[i]).path@, seq!['h']) && declares(
            files[i],
            name,
        )
}

/// A function that the visibility rule looks at: a definition, not static,
/// without export macro, declared in no header of `files`, and not special.
pub open spec fn undeclared_candidate(files: Seq<FileModel>, f: FunctionInfo) -> bool {
    &&& f.is_definition
    &&& !f.is_static
    &&& f.export_macros@.len() == 0
    &&& !declared_in_header(files, f.name@)
    &&& !is_special_name(f.name@)
}

/// The candidates among `fs`, each with `path`, in order.
pub open spec fn candidates_of(files: Seq<FileModel>, path: Seq<char>, fs: Seq<FunctionInfo>) -> Seq<
    (Seq<char>, FunctionInfo),
>
    decreases fs.len(),
{
    if fs.len() == 0 {
        Seq::empty()
    } else {
        candidates_of(files, path, fs.drop_last()) + if undeclared_candidate(files, fs.last()) {
            seq![(path, fs.last())]
        } else {
            Seq::empty()
        }
    }
}

/// The candidates of the `.c` files among the first `n` files of `files`,
/// file by file, in order.
pub open spec fn undeclared_in(files: Seq<FileModel>, n: int) -> Seq<(Seq<char>, FunctionInfo)>
    decreases n,
{
    if n <= 0 {
        Seq::empty()
    } else {
        undeclared_in(files, n - 1) + if has_extension(files[n - 1].path@, seq!['c']) {
            candidates_of(files, files[n - 1].path@, files[n - 1].functions@)
        } else {
            Seq::empty()
        }
    }
}

/// The files among the first `n` of `files` whose path has extension `ext`.
pub open spec fn files_with_extension(files: Seq<FileModel>, ext: Seq<char>, n: int) -> Seq<FileModel>
    decreases n,
{
    if n <= 0 {
        Seq::empty()
    } else {
        files_with_extension(files, ext, n - 1) + if has_extension(files[n - 1].path@, ext) {
            seq![files[n - 1]]
        } else {
            Seq::empty()
        }
    }
}

/// `name` is a `_get_type` function, or one that GObject generates for a type
/// of `files`.
pub open spec fn gobject_internal(files: Seq<FileModel>, name: Seq<char>) -> bool {
    has_suffix(name, "_get_type"@) || exists|i: int, k: int|
        0 <= i < files.len() && 0 <= k < files[i].gobject_types@.len() && generated_for(
            function_prefix_of(#[trigger] files[i].gobject_types@[k].kind),
            name,
        )
}

/// The `.c` files of the project of `ctx`, in order.
pub open spec fn c_files(ctx: AstContext) -> Seq<FileModel> {
    files_with_extension(ctx.project.files@, seq!['c'], ctx.project.files@.len() as int)
}

/// The `.c` files of the project of `ctx`, in order.
pub open spec fn c_files_of(ctx: &AstContext) -> Seq<FileModel> {
    c_files(*ctx)
}

/// The `.h` files of the project of `ctx`, in order.
pub open spec fn header_files(ctx: AstContext) -> Seq<FileModel> {
    files_with_extension(ctx.project.files@, seq!['h'], ctx.project.files@.len() as int)
}

/// The views of pairs of a path and a function.
pub open spec fn pair_views(s: Seq<(&str, &FunctionInfo)>) -> Seq<(Seq<char>, FunctionInfo)> {
    s.map_values(|p: (&str, &FunctionInfo)| (p.0@, *p.1))
}

/// Check if a function name indicates a special function that the
/// visibility rule does not report.
pub fn is_special_function(name: &str) -> (r: bool)
    ensures
        r == is_special_name(name@),
{
    let lifecycle: [&str; 7] = [
        "_class_init",
        "_init",
        "_finalize",
        "_dispose",
        "_constructed",
        "_set_property",
        "_get_property",
    ];
    if str_eq(name, "main") || ends_with(name, "_get_type") || ends_with(name, "_error_quark") {
        return true;
    }
    let mut k: usize = 0;
    while k < 7
        invariant
            k <= 7,
            lifecycle@.len() == 7,
            str_views(lifecycle@) == lifecycle_suffixes(),
            forall|j: int| 0 <= j < k ==> !has_suffix(name@, #[trigger] lifecycle_suffixes()[j]),
        decreases 7 - k,
    {
        if ends_with(name, lifecycle[k]) {
            assert(has_suffix(name@, lifecycle_suffixes()[k as int]));
            return true;
        }
        k = k + 1;
    }
    false
}

impl AstContext {
    /// The source text of an entire function definition in the file at
    /// `file_path`: none when there is no such file or the function has no
    /// byte range.
    pub fn get_function_source<'a>(&'a self, file_path: &str, func: &FunctionInfo) -> (r: Option<&'a [u8]>)
        requires
            lookup_file(self.project.files@, file_path@) matches Some(f) ==> (func.start_byte matches Some(
                s,
            ) && func.end_byte matches Some(e) ==> s <= e <= f.source@.len()),
        ensures
            r is Some <==> lookup_file(self.project.files@, file_path@) is Some && func.start_byte is Some
                && func.end_byte is Some,
            r matches Some(b) ==> b@ == lookup_file(self.project.files@, file_path@).unwrap().source@.subrange(
                func.start_byte.unwrap() as int,
                func.end_byte.unwrap() as int,
            ),
    {
        let file = self.project.get_file(file_path)?;
        match (func.start_byte, func.end_byte) {
            (Some(start), Some(end)) => {
                Some(vstd::slice::slice_subrange(file.source.as_slice(), start, end))
            },
            _ => None,
        }
    }

    /// Check if a function is declared in any header file.
    pub fn is_declared_in_header(&self, func_name: &str) -> (r: bool)
        ensures
            r == declared_in_header(self.project.files@, func_name@),
    {
        let files = &self.project.files;
        let mut i: usize = 0;
        while i < files.len()
            invariant
                i <= files@.len(),
                files@ == self.project.files@,
                forall|k: int|
                    0 <= k < i ==> !(has_extension((#[trigger] files@[k]).path@, seq!['h'])
                        && declares(files@[k], func_name@)),
            decreases files@.len() - i,
        {
            proof {
                reveal_strlit("h");
                assert("h"@ =~= seq!['h']);
            }
            if path_has_extension(files[i].path.as_str(), "h") && file_declares(&files[i], func_name) {
                return true;
            }
            i = i + 1;
        }
        false
    }

    /// The files of the project whose path has extension `ext`, in order
    /// (none when `ext` holds a `.`).
    pub fn files_with_extension<'a>(&'a self, ext: &str) -> (r: Vec<&'a FileModel>)
        ensures
            r@.map_values(|f: &FileModel| *f) == files_with_extension(
                self.project.files@,
                ext@,
                self.project.files@.len() as int,
            ),
    {
        let files = &self.project.files;
        let mut out: Vec<&'a FileModel> = Vec::new();
        let mut i: usize = 0;
        while i < files.len()
            invariant
                i <= files@.len(),
                out@.map_values(|f: &FileModel| *f) == files_with_extension(files@, ext@, i as int),
            decreases files@.len() - i,
        {
            let ghost before = out@;
            if path_has_extension(files[i].path.as_str(), ext) {
                out.push(&files[i]);
                assert(out@.map_values(|f: &FileModel| *f) =~= before.map_values(
                    |f: &FileModel| *f,
                ) + seq![files@[i as int]]);
            } else {
                assert(files_with_extension(files@, ext@, i + 1) =~= files_with_extension(
                    files@,
                    ext@,
                    i as int,
                ) + Seq::empty());
            }
            i = i + 1;
        }
        out
    }

    /// The `.c` files of the project, in order.
    pub fn iter_c_files<'a>(&'a self) -> (r: Vec<&'a FileModel>)
        ensures
            r@.map_values(|f: &FileModel| *f) == c_files(*self),
    {
        proof {
            reveal_strlit("c");
            assert("c"@ =~= seq!['c']);
        }
        self.files_with_extension("c")
    }

    /// The `.h` files of the project, in order.
    pub fn iter_header_files<'a>(&'a self) -> (r: Vec<&'a FileModel>)
        ensures
            r@.map_values(|f: &FileModel| *f) == header_files(*self),
    {
        proof {
            reveal_strlit("h");
            assert("h"@ =~= seq!['h']);
        }
        self.files_with_extension("h")
    }

    /// Find all non-static function definitions of `.c` files that no header
    /// declares and that carry no export macro, special functions aside, with
    /// the path of their file. Each should be made static (used in one file
    /// only), given an export macro (public API) or declared in a header
    /// (internal API).
    pub fn find_undeclared_non_static_functions<'a>(&'a self) -> (r: Vec<(&'a str, &'a FunctionInfo)>)
        ensures
            pair_views(r@) == undeclared_in(self.project.files@, self.project.files@.len() as int),
    {
        let files = &self.project.files;
        let ghost all = files@;
        let mut out: Vec<(&'a str, &'a FunctionInfo)> = Vec::new();
        let mut i: usize = 0;
        while i < files.len()
            invariant
                i <= files@.len(),
                all == self.project.files@,
                files@ == all,
                pair_views(out@) == undeclared_in(all, i as int),
            decreases files@.len() - i,
        {
            let file = &files[i];
            let path: &str = file.path.as_str();
            proof {
                reveal_strlit("c");
                assert("c"@ =~= seq!['c']);
            }
            if path_has_extension(path, "c") {
                let ghost start = out@;
                let mut j: usize = 0;
                while j < file.functions.len()
                    invariant
                        j <= file.functions@.len(),
                        i < all.len(),
                        all == self.project.files@,
                        *file == all[i as int],
                        path@ == file.path@,
                        pair_views(out@) == pair_views(start) + candidates_of(
                            all,
                            path@,
                            file.functions@.take(j as int),
                        ),
                    decreases file.functions@.len() - j,
                {
                    let f = &file.functions[j];
                    assert(file.functions@.take(j + 1).drop_last() =~= file.functions@.take(j as int));
                    let ghost before = out@;
                    if f.is_definition && !f.is_static && f.export_macros.len() == 0
                        && !self.is_declared_in_header(f.name.as_str()) && !is_special_function(
                        f.name.as_str(),
                    ) {
                        out.push((path, f));
                        assert(pair_views(out@) =~= pair_views(before) + seq![(path@, *f)]);
                    } else {
                        assert(candidates_of(all, path@, file.functions@.take(j + 1))
                            =~= candidates_of(all, path@, file.functions@.take(j as int))
                            + Seq::empty());
                    }
                    j = j + 1;
                }
                assert(file.functions@.take(file.functions@.len() as int) =~= file.functions@);
            } else {
                assert(undeclared_in(all, i + 1) =~= undeclared_in(all, i as int) + Seq::empty());
            }
            i = i + 1;
        }
        out
    }

    /// Check if a function is part of a GObject type definition: a
    /// `_get_type` function, or one of the functions that GObject generates
    /// for a type of the project (`prefix_class_init`, `prefix_init`, ...).
    pub fn is_gobject_internal(&self, func_name: &str) -> (r: bool)
        ensures
            r == gobject_internal(self.project.files@, func_name@),
    {
        if ends_with(func_name, "_get_type") {
            return true;
        }
        let files = &self.project.files;
        let mut i: usize = 0;
        while i < files.len()
            invariant
                i <= files@.len(),
                files@ == self.project.files@,
                forall|i2: int, k: int|
                    0 <= i2 < i && 0 <= k < files@[i2].gobject_types@.len() ==> !generated_for(
                        function_prefix_of(#[trigger] files@[i2].gobject_types@[k].kind),
                        func_name@,
                    ),
            decreases files@.len() - i,
        {
            let types = &files[i].gobject_types;
            let mut k: usize = 0;
            while k < types.len()
                invariant
                    i < files@.len(),
                    files@ == self.project.files@,
                    *types == files@[i as int].gobject_types,
                    k <= types@.len(),
                    forall|i2: int, k2: int|
                        0 <= i2 < i && 0 <= k2 < files@[i2].gobject_types@.len() ==> !generated_for(
                            function_prefix_of(#[trigger] files@[i2].gobject_types@[k2].kind),
                            func_name@,
                        ),
                    forall|k2: int|
                        0 <= k2 < k ==> !generated_for(
                            function_prefix_of(#[trigger] files@[i as int].gobject_types@[k2].kind),
                            func_name@,
                        ),
                decreases types@.len() - k,
            {
                let prefix = types[k].kind.function_prefix();
                if is_generated_for(prefix.as_str(), func_name) {
                    return true;
                }
                k = k + 1;
            }
            i = i + 1;
        }
        false
    }
}

/// `name` is one of the functions that GObject generates for a type with the
/// function prefix `prefix`.
pub fn is_generated_for(prefix: &str, name: &str) -> (r: bool)
    ensures
        r == generated_for(prefix@, name@),
{
    if !starts_with(name, prefix) {
        return false;
    }
    let chars = chars_of(name);
    let p = chars_of(prefix);
    let rest = string_from_chars(slice_chars(&chars, p.len(), chars.len()).as_slice());
    assert(rest@ =~= name@.skip(prefix@.len() as int));
    let lifecycle: [&str; 7] = [
        "_class_init",
        "_init",
        "_finalize",
        "_dispose",
        "_constructed",
        "_set_property",
        "_get_property",
    ];
    assert(str_views(lifecycle@) =~= lifecycle_suffixes());
    str_in(&lifecycle, rest.as_str())
}

} // verus!
