//! The project model: the files of a source tree and what was found in each.

use vstd::prelude::*;

use crate::model::function::{FunctionInfo, Parameter};
use crate::model::location::SourceLocation;
use crate::text::{chars_of, has_suffix, str_eq};

verus! {

/// A type registered with one of the GObject type macros.
#[derive(Debug)]
pub struct GObjectType {
    /// e.g. `ClutterInputDeviceTool`
    pub gtype_name: String,
    /// e.g. `CLUTTER_TYPE_INPUT_DEVICE_TOOL`
    pub type_macro: String,
    pub kind: GObjectTypeKind,
    /// For derivable types.
    pub class_struct: Option<ClassStruct>,
    pub line: usize,
}

#[derive(Debug)]
pub struct ClassStruct {
    /// e.g. `CoglWinsysClass`
    pub name: String,
    pub vfuncs: Vec<VirtualFunction>,
}

#[derive(Debug)]
pub struct VirtualFunction {
    pub name: String,
    pub return_type: Option<String>,
    pub parameters: Vec<Parameter>,
}

/// Which macro declared or defined a GObject type, with its arguments.
#[derive(Debug)]
pub enum GObjectTypeKind {
    DeclareFinal {
        /// e.g. `clutter_input_device_tool`
        function_prefix: String,
        /// e.g. `CLUTTER`
        module_prefix: String,
        /// e.g. `INPUT_DEVICE_TOOL`
        type_prefix: String,
        /// e.g. `GObject`
        parent_type: String,
    },
    DeclareDerivable {
        function_prefix: String,
        module_prefix: String,
        type_prefix: String,
        parent_type: String,
    },
    DeclareInterface {
        function_prefix: String,
        module_prefix: String,
        type_prefix: String,
        prerequisite_type: String,
    },
    DefineType { function_prefix: String, parent_type: String },
    DefineTypeWithPrivate { function_prefix: String, parent_type: String },
    DefineAbstractType { function_prefix: String, parent_type: String },
}

/// The function prefix that every kind of GObject type macro carries.
pub open spec fn function_prefix_of(kind: GObjectTypeKind) -> Seq<char> {
    match kind {
        GObjectTypeKind::DeclareFinal { function_prefix, .. } => function_prefix@,
        GObjectTypeKind::DeclareDerivable { function_prefix, .. } => function_prefix@,
        GObjectTypeKind::DeclareInterface { function_prefix, .. } => function_prefix@,
        GObjectTypeKind::DefineType { function_prefix, .. } => function_prefix@,
        GObjectTypeKind::DefineTypeWithPrivate { function_prefix, .. } => function_prefix@,
        GObjectTypeKind::DefineAbstractType { function_prefix, .. } => function_prefix@,
    }
}

impl GObjectTypeKind {
    /// The function prefix of the type (`clutter_input_device_tool`).
    pub fn function_prefix(&self) -> (r: &String)
        ensures
            r@ == function_prefix_of(*self),
    {
        match self {
            GObjectTypeKind::DeclareFinal { function_prefix, .. } => function_prefix,
            GObjectTypeKind::DeclareDerivable { function_prefix, .. } => function_prefix,
            GObjectTypeKind::DeclareInterface { function_prefix, .. } => function_prefix,
            GObjectTypeKind::DefineType { function_prefix, .. } => function_prefix,
            GObjectTypeKind::DefineTypeWithPrivate { function_prefix, .. } => function_prefix,
            GObjectTypeKind::DefineAbstractType { function_prefix, .. } => function_prefix,
        }
    }
}

/// An `#include` line.
#[derive(Debug)]
pub struct Include {
    pub path: String,
    /// `<...>` rather than `"..."`.
    pub is_system: bool,
    pub location: SourceLocation,
}

#[derive(Debug)]
pub struct StructInfo {
    pub name: String,
    pub line: usize,
    pub fields: Vec<Field>,
    /// Only declared, not defined.
    pub is_opaque: bool,
}

#[derive(Debug)]
pub struct Field {
    pub name: String,
    pub type_text: String,
}

#[derive(Debug)]
pub struct EnumInfo {
    pub name: String,
    pub line: usize,
    pub values: Vec<EnumValue>,
    /// Byte range of the enum body, where fixes are inserted.
    pub body_start_byte: usize,
    pub body_end_byte: usize,
}

#[derive(Debug)]
pub struct EnumValue {
    pub name: String,
    pub value: Option<i64>,
    /// Byte range of this enumerator.
    pub start_byte: usize,
    pub end_byte: usize,
    /// Byte range of just the name.
    pub name_start_byte: usize,
    pub name_end_byte: usize,
    /// Byte range of the value, if there is one.
    pub value_start_byte: Option<usize>,
    pub value_end_byte: Option<usize>,
}

#[derive(Debug)]
pub struct TypedefInfo {
    pub name: String,
    pub line: usize,
    pub target_type: String,
}

/// The kind of a preprocessor conditional.
#[derive(Clone, Copy, Debug, PartialEq, Eq, Structural)]
pub enum ConditionalKind {
    If,
    Ifdef,
    Ifndef,
}

#[derive(Clone, Copy, Debug, PartialEq, Eq, Structural)]
pub enum PragmaKind {
    Once,
    Other,
}

/// A preprocessor directive at the top level of a file.
#[derive(Debug)]
pub enum PreprocessorDirective {
    /// `#if` / `#ifdef` / `#ifndef` with the items up to its `#endif`; the
    /// location runs from the directive to the end of the `#endif` word.
    Conditional {
        kind: ConditionalKind,
        condition: Option<String>,
        body: Vec<TopLevelItem>,
        location: SourceLocation,
    },
    /// `#define NAME [VALUE]`.
    Define { name: String, value: Option<String>, location: SourceLocation },
    /// `#pragma ...`.
    Pragma { kind: PragmaKind, location: SourceLocation },
}

/// An item at the top level of a file, in source order.
#[derive(Debug)]
pub enum TopLevelItem {
    Preprocessor(PreprocessorDirective),
    /// Any other declaration or definition.
    Other(SourceLocation),
}

/// Model of a single file (header or C file).
#[derive(Debug)]
pub struct FileModel {
    pub path: String,
    pub includes: Vec<Include>,
    pub typedefs: Vec<TypedefInfo>,
    pub structs: Vec<StructInfo>,
    pub enums: Vec<EnumInfo>,
    pub functions: Vec<FunctionInfo>,
    pub gobject_types: Vec<GObjectType>,
    pub top_level_items: Vec<TopLevelItem>,
    /// The raw source of the file, for detailed pattern matching.
    pub source: Vec<u8>,
}

impl FileModel {
    /// An empty model of the file at `path`.
    pub fn new(path: String) -> (r: Self)
        ensures
            r.path@ == path@,
            r.includes@.len() == 0,
            r.typedefs@.len() == 0,
            r.structs@.len() == 0,
            r.enums@.len() == 0,
            r.functions@.len() == 0,
            r.gobject_types@.len() == 0,
            r.top_level_items@.len() == 0,
            r.source@.len() == 0,
    {
        FileModel {
            path,
            includes: Vec::new(),
            typedefs: Vec::new(),
            structs: Vec::new(),
            enums: Vec::new(),
            functions: Vec::new(),
            gobject_types: Vec::new(),
            top_level_items: Vec::new(),
            source: Vec::new(),
        }
    }
}

// ---------------------------------------------------------------------------
// Paths
// ---------------------------------------------------------------------------

/// The last component of a `/`-separated path: what follows its last `/`.
pub open spec fn file_name_of(path: Seq<char>) -> Seq<char>
    decreases path.len(),
{
    if path.len() == 0 {
        path
    } else if path.last() == '/' {
        Seq::empty()
    } else {
        file_name_of(path.drop_last()).push(path.last())
    }
}

/// The file name of `path` has the extension `ext` (which holds no `.`): it
/// ends with `.` and `ext`, and the `.` is not its first character
/// (`Path::extension`).
pub open spec fn has_extension(path: Seq<char>, ext: Seq<char>) -> bool {
    let name = file_name_of(path);
    !ext.contains('.') && name.len() >= ext.len() + 2 && has_suffix(name, seq!['.'] + ext)
}

proof fn lemma_file_name_suffix(path: Seq<char>)
    ensures
        file_name_of(path).len() <= path.len(),
        file_name_of(path) =~= path.subrange(path.len() - file_name_of(path).len(), path.len() as int),
        forall|k: int| 0 <= k < file_name_of(path).len() ==> file_name_of(path)[k] != '/',
        file_name_of(path).len() < path.len() ==> path[path.len() - file_name_of(path).len() - 1]
            == '/',
    decreases path.len(),
{
    if path.len() > 0 && path.last() != '/' {
        lemma_file_name_suffix(path.drop_last());
    }
}

/// The file name of `path` has the extension `ext`: it ends in `.` and
/// `ext`, with something before that `.`.  An `ext` that holds a `.` is no
/// extension, and no path has it.
pub fn path_has_extension(path: &str, ext: &str) -> (r: bool)
    ensures
        r == has_extension(path@, ext@),
{
    if crate::text::contains_char(ext, '.') {
        return false;
    }
    let p = chars_of(path);
    let e = chars_of(ext);
    // Start of the file name: after the last '/'.
    let mut start = p.len();
    while start > 0 && p[start - 1] != '/'
        invariant
            start <= p@.len(),
            forall|k: int| start <= k < p@.len() ==> p@[k] != '/',
        decreases start,
    {
        start = start - 1;
    }
    proof {
        lemma_file_name_suffix(path@);
        let n = file_name_of(path@);
        // The file name starts exactly at `start`.
        if n.len() < p@.len() - start {
            let k = p@.len() - n.len() - 1;
            assert(path@[k] == '/');
        }
        if n.len() > p@.len() - start {
            let k = start - 1;
            assert(n[k - (p@.len() - n.len())] == path@[k]);
        }
        assert(n.len() == p@.len() - start);
    }
    let name_len = p.len() - start;
    if name_len < 2 || name_len - 2 < e.len() {
        return false;
    }
    let off = p.len() - e.len() - 1;
    if p[off] != '.' {
        proof {
            let n = file_name_of(path@);
            let tail = n.subrange(n.len() - e@.len() - 1, n.len() as int);
            assert(tail[0] == n[n.len() - e@.len() - 1]);
            assert(n[n.len() - e@.len() - 1] == path@[off as int]);
            assert(tail[0] != (seq!['.'] + ext@)[0]);
        }
        return false;
    }
    let mut i: usize = 0;
    while i < e.len()
        invariant
            p@ == path@,
            e@ == ext@,
            off + 1 + e@.len() == p@.len(),
            p@.len() <= usize::MAX,
            p@.len() - start == file_name_of(path@).len(),
            file_name_of(path@).len() >= e@.len() + 2,
            i <= e@.len(),
            forall|j: int| 0 <= j < i ==> p@[off + 1 + j] == e@[j],
        decreases e@.len() - i,
    {
        if p[off + 1 + i] != e[i] {
            proof {
                let n = file_name_of(path@);
                lemma_file_name_suffix(path@);
                let tail = n.subrange(n.len() - e@.len() - 1, n.len() as int);
                assert(tail[i + 1] == n[n.len() - e@.len() + i]);
                assert(n[n.len() - e@.len() + i] == path@[off + 1 + i]);
                assert((seq!['.'] + ext@)[i + 1] == ext@[i as int]);
                assert(tail[i + 1] != (seq!['.'] + ext@)[i + 1]);
            }
            return false;
        }
        i = i + 1;
    }
    proof {
        let n = file_name_of(path@);
        lemma_file_name_suffix(path@);
        let tail = n.subrange(n.len() - e@.len() - 1, n.len() as int);
        assert forall|k: int| 0 <= k < tail.len() implies tail[k] == (seq!['.'] + ext@)[k] by {
            assert(tail[k] == n[n.len() - e@.len() - 1 + k]);
            assert(n[n.len() - e@.len() - 1 + k] == path@[off + k]);
            if k > 0 {
                assert(p@[off + 1 + (k - 1)] == e@[k - 1]);
            }
        }
        assert(tail =~= seq!['.'] + ext@);
    }
    true
}

// ---------------------------------------------------------------------------
// The project
// ---------------------------------------------------------------------------

/// The files of a source tree, each path at most once.
#[derive(Debug)]
pub struct Project {
    pub files: Vec<FileModel>,
}

/// Some function of `file` is named `name`.
pub open spec fn declares(file: FileModel, name: Seq<char>) -> bool {
    exists|j: int| 0 <= j < file.functions@.len() && (#[trigger] file.functions@[j]).name@ == name
}

/// `j` is the first index of `fs` holding a function named `name`.
pub open spec fn first_named_at(fs: Seq<FunctionInfo>, name: Seq<char>, j: int) -> bool {
    &&& 0 <= j < fs.len()
    &&& fs[j].name@ == name
    &&& forall|k: int| 0 <= k < j ==> (#[trigger] fs[k]).name@ != name
}

/// `f` is what a search of `files`, in order, for a function named `name`
/// finds first.
pub open spec fn first_function(files: Seq<FileModel>, name: Seq<char>, f: FunctionInfo) -> bool {
    exists|i: int, j: int|
        0 <= i < files.len() && #[trigger] first_named_at(files[i].functions@, name, j)
            && files[i].functions@[j] == f && forall|k: int|
            0 <= k < i ==> !declares(#[trigger] files[k], name)
}

/// The index of the first file of `files` at `path`, or -1.
pub open spec fn path_index(files: Seq<FileModel>, path: Seq<char>) -> int
    decreases files.len(),
{
    if files.len() == 0 {
        -1
    } else if files[0].path@ == path {
        0
    } else if path_index(files.drop_first(), path) < 0 {
        -1
    } else {
        path_index(files.drop_first(), path) + 1
    }
}

/// The first file of `files` at `path`.
pub open spec fn lookup_file(files: Seq<FileModel>, path: Seq<char>) -> Option<FileModel> {
    if path_index(files, path) >= 0 {
        Some(files[path_index(files, path)])
    } else {
        None
    }
}

/// The files after adding `file`: in place of the first one at its path,
/// or at the end.
pub open spec fn insert_file_spec(files: Seq<FileModel>, file: FileModel) -> Seq<FileModel> {
    if path_index(files, file.path@) >= 0 {
        files.update(path_index(files, file.path@), file)
    } else {
        files.push(file)
    }
}

/// No path occurs twice among `files`.
pub open spec fn paths_unique(files: Seq<FileModel>) -> bool {
    forall|i: int, j: int|
        0 <= i < j < files.len() ==> (#[trigger] files[i]).path@ != (#[trigger] files[j]).path@
}

/// `path_index` finds the first file at the path, and none when there is
/// none.
pub proof fn lemma_path_index_bounds(files: Seq<FileModel>, path: Seq<char>)
    ensures
        -1 <= path_index(files, path) < files.len(),
        path_index(files, path) >= 0 ==> files[path_index(files, path)].path@ == path,
        path_index(files, path) >= 0 ==> forall|k: int|
            0 <= k < path_index(files, path) ==> (#[trigger] files[k]).path@ != path,
        path_index(files, path) < 0 ==> forall|k: int|
            0 <= k < files.len() ==> (#[trigger] files[k]).path@ != path,
    decreases files.len(),
{
    if files.len() > 0 && files[0].path@ != path {
        let rest = files.drop_first();
        lemma_path_index_bounds(rest, path);
        assert forall|k: int| 1 <= k < files.len() implies files[k] == rest[k - 1] by {}
        if path_index(rest, path) >= 0 {
            assert forall|k: int| 0 <= k < path_index(files, path) implies (#[trigger] files[k]).path@ != path by {
                if k > 0 {
                    assert(files[k] == rest[k - 1]);
                }
            }
        } else {
            assert forall|k: int| 0 <= k < files.len() implies (#[trigger] files[k]).path@ != path by {
                if k > 0 {
                    assert(files[k] == rest[k - 1]);
                }
            }
        }
    }
}

/// The index of the first file at `path`, if there is one.
pub fn file_index(files: &Vec<FileModel>, path: &str) -> (r: Option<usize>)
    ensures
        r matches Some(k) ==> k == path_index(files@, path@),
        r is None ==> path_index(files@, path@) == -1,
{
    proof {
        lemma_path_index_bounds(files@, path@);
    }
    let mut i: usize = 0;
    while i < files.len()
        invariant
            i <= files@.len(),
            forall|k: int| 0 <= k < i ==> (#[trigger] files@[k]).path@ != path@,
            -1 <= path_index(files@, path@) < files@.len(),
            path_index(files@, path@) >= 0 ==> files@[path_index(files@, path@)].path@ == path@,
            path_index(files@, path@) >= 0 ==> forall|k: int|
                0 <= k < path_index(files@, path@) ==> (#[trigger] files@[k]).path@ != path@,
            path_index(files@, path@) < 0 ==> forall|k: int|
                0 <= k < files@.len() ==> (#[trigger] files@[k]).path@ != path@,
        decreases files@.len() - i,
    {
        if str_eq(files[i].path.as_str(), path) {
            return Some(i);
        }
        i = i + 1;
    }
    None
}

impl Project {
    /// No path occurs twice.
    pub open spec fn wf(&self) -> bool {
        paths_unique(self.files@)
    }

    /// The project has a file at `path`.
    pub open spec fn has_file(&self, path: Seq<char>) -> bool {
        exists|i: int| 0 <= i < self.files@.len() && (#[trigger] self.files@[i]).path@ == path
    }

    /// An empty project.
    pub fn new() -> (r: Self)
        ensures
            r.files@.len() == 0,
            r.wf(),
    {
        Project { files: Vec::new() }
    }

    /// The model of the file at `path`: the first one with that path.
    pub fn get_file(&self, path: &str) -> (r: Option<&FileModel>)
        ensures
            r matches Some(f) ==> lookup_file(self.files@, path@) == Some(*f),
            r is None ==> lookup_file(self.files@, path@) is None,
    {
        let ghost fs = self.files@;
        match file_index(&self.files, path) {
            Some(k) => {
                proof {
                    lemma_path_index_bounds(fs, path@);
                }
                Some(&self.files[k])
            },
            None => None,
        }
    }

    /// Adds the model of a file, in place of the (first) one at the same path
    /// if there is one.
    pub fn insert_file(&mut self, file: FileModel)
        ensures
            final(self).files@ == insert_file_spec(old(self).files@, file),
    {
        proof {
            lemma_path_index_bounds(self.files@, file.path@);
        }
        match file_index(&self.files, file.path.as_str()) {
            Some(k) => {
                self.files.set(k, file);
            },
            None => {
                self.files.push(file);
            },
        }
    }

    /// Find a function by name across all files: the first one named `name`
    /// of the first file that has one.
    pub fn find_function(&self, name: &str) -> (r: Option<&FunctionInfo>)
        ensures
            r matches Some(f) ==> first_function(self.files@, name@, *f),
            r is None <==> forall|i: int|
                0 <= i < self.files@.len() ==> !declares(#[trigger] self.files@[i], name@),
    {
        let mut i: usize = 0;
        while i < self.files.len()
            invariant
                i <= self.files@.len(),
                forall|k: int| 0 <= k < i ==> !declares(#[trigger] self.files@[k], name@),
            decreases self.files@.len() - i,
        {
            let file = &self.files[i];
            let mut j: usize = 0;
            while j < file.functions.len()
                invariant
                    i < self.files@.len(),
                    *file == self.files@[i as int],
                    forall|k: int| 0 <= k < i ==> !declares(#[trigger] self.files@[k], name@),
                    j <= file.functions@.len(),
                    forall|k: int| 0 <= k < j ==> (#[trigger] file.functions@[k]).name@ != name@,
                decreases file.functions@.len() - j,
            {
                if str_eq(file.functions[j].name.as_str(), name) {
                    assert(first_named_at(self.files@[i as int].functions@, name@, j as int));
                    return Some(&file.functions[j]);
                }
                j = j + 1;
            }
            i = i + 1;
        }
        None
    }

    /// Check if a function is declared in any header (`.h` file).
    pub fn is_function_declared_in_header(&self, name: &str) -> (r: bool)
        ensures
            r == exists|i: int|
                0 <= i < self.files@.len() && has_extension((#[trigger] self.files@[i]).path@, seq!['h'])
                    && declares(self.files@[i], name@),
    {
        let mut i: usize = 0;
        while i < self.files.len()
            invariant
                i <= self.files@.len(),
                forall|k: int|
                    0 <= k < i ==> !(has_extension((#[trigger] self.files@[k]).path@, seq!['h'])
                        && declares(self.files@[k], name@)),
            decreases self.files@.len() - i,
        {
            let file = &self.files[i];
            proof {
                reveal_strlit("h");
                assert("h"@ =~= seq!['h']);
            }
            if path_has_extension(file.path.as_str(), "h") {
                if file_declares(file, name) {
                    return true;
                }
            }
            i = i + 1;
        }
        false
    }

    /// Check if a function has export macros (is public API): in some file,
    /// the first function named `name` carries one.
    pub fn is_function_exported(&self, name: &str) -> (r: bool)
        ensures
            r == exists|i: int, j: int|
                0 <= i < self.files@.len() && #[trigger] first_named_at(
                    self.files@[i].functions@,
                    name@,
                    j,
                ) && self.files@[i].functions@[j].export_macros@.len() > 0,
    {
        let mut i: usize = 0;
        while i < self.files.len()
            invariant
                i <= self.files@.len(),
                forall|k: int, j: int|
                    0 <= k < i && #[trigger] first_named_at(self.files@[k].functions@, name@, j)
                        ==> self.files@[k].functions@[j].export_macros@.len() == 0,
            decreases self.files@.len() - i,
        {
            let fs = &self.files[i].functions;
            if let Some(j) = first_named_index(fs, name) {
                if fs[j].export_macros.len() > 0 {
                    return true;
                }
                assert forall|j2: int| #[trigger] first_named_at(fs@, name@, j2) implies fs@[j2].export_macros@.len() == 0 by {
                    if j2 < j {
                        assert(fs@[j2].name@ != name@);
                    } else if j2 > j {
                        assert(fs@[j as int].name@ != name@);
                    }
                }
            }
            i = i + 1;
        }
        false
    }
}

/// The index of the first function of `fs` named `name`.
pub fn first_named_index(fs: &Vec<FunctionInfo>, name: &str) -> (r: Option<usize>)
    ensures
        r matches Some(j) ==> first_named_at(fs@, name@, j as int),
        r is None ==> forall|k: int| 0 <= k < fs@.len() ==> (#[trigger] fs@[k]).name@ != name@,
{
    let mut j: usize = 0;
    while j < fs.len()
        invariant
            j <= fs@.len(),
            forall|k: int| 0 <= k < j ==> (#[trigger] fs@[k]).name@ != name@,
        decreases fs@.len() - j,
    {
        if str_eq(fs[j].name.as_str(), name) {
            return Some(j);
        }
        j = j + 1;
    }
    None
}

/// Some function of `file` is named `name`.
pub fn file_declares(file: &FileModel, name: &str) -> (r: bool)
    ensures
        r == declares(*file, name@),
{
    let mut j: usize = 0;
    while j < file.functions.len()
        invariant
            j <= file.functions@.len(),
            forall|k: int| 0 <= k < j ==> (#[trigger] file.functions@[k]).name@ != name@,
        decreases file.functions@.len() - j,
    {
        if str_eq(file.functions[j].name.as_str(), name) {
            return true;
        }
        j = j + 1;
    }
    false
}

} // verus!
