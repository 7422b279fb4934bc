//! The table of the modules and scripts of a package.
use crate::config::same_text;
use crate::file::FusionFile;
use crate::index::module::{
    find_place, mapped_place_of, place_of, Mapping, Module, ModuleModel, Named, Origin, RequireForm,
    RequireType,
};
use crate::index::script::Script;
use crate::model::texts;
use crate::span::ShortSpan;
use crate::text::{push_all, push_str, to_chars, to_string};
use vstd::prelude::*;

verus! {

/// The name of the module that every language chain ends in.
pub const TOP_LEVEL_MODULE_NAME: &'static str = "/fusion/private/kernel";

/// The end of the name of a source file.
pub const FILE_EXTENSION: &'static str = ".fusion";

/// The modules and scripts of a package, each found by its name.
pub struct FusionIndex {
    current_package_path: String,
    module_paths: Vec<String>,
    modules: Vec<Module>,
    scripts: Vec<Script>,
}

/// The views of a sequence of modules.
pub open spec fn module_views(modules: Seq<Module>) -> Seq<ModuleModel> {
    modules.map_values(|m: Module| m@)
}

/// Position of the first of `modules[from..]` that is called `name`.
pub open spec fn module_position(modules: Seq<ModuleModel>, name: Seq<char>, from: int) -> Option<
    int,
>
    decreases modules.len() - from,
{
    if from < 0 || from >= modules.len() {
        None
    } else if modules[from].name == name {
        Some(from)
    } else {
        module_position(modules, name, from + 1)
    }
}

/// Position of the first of `scripts[from..]` that is called `name`.
pub open spec fn script_position(scripts: Seq<Script>, name: Seq<char>, from: int) -> Option<int>
    decreases scripts.len() - from,
{
    if from < 0 || from >= scripts.len() {
        None
    } else if scripts[from].name@ == name {
        Some(from)
    } else {
        script_position(scripts, name, from + 1)
    }
}

/// Where `module_position` points, a module of that name stands; where it points
/// nowhere, there is none.
pub proof fn lemma_module_position(modules: Seq<ModuleModel>, name: Seq<char>, from: int)
    requires
        0 <= from,
    ensures
        match module_position(modules, name, from) {
            Some(i) => from <= i < modules.len() && modules[i].name == name,
            None => forall|j: int| from <= j < modules.len() ==> (#[trigger] modules[j]).name != name,
        },
    decreases modules.len() - from,
{
    if from < modules.len() && modules[from].name != name {
        lemma_module_position(modules, name, from + 1);
    }
}

/// After a module has been put into a table, it is found by its name.
pub proof fn lemma_with_module_found(modules: Seq<ModuleModel>, module: ModuleModel)
    ensures
        module_position(with_module(modules, module), module.name, 0) is Some,
{
    lemma_module_position(modules, module.name, 0);
    let after = with_module(modules, module);
    lemma_module_position(after, module.name, 0);
    match module_position(modules, module.name, 0) {
        Some(i) => {
            assert(after[i].name == module.name);
        },
        None => {
            assert(after[modules.len() as int].name == module.name);
        },
    }
}

/// `modules` with `module`: in place of the module of that name if there is one, else at
/// the end.
pub open spec fn with_module(modules: Seq<ModuleModel>, module: ModuleModel) -> Seq<ModuleModel> {
    match module_position(modules, module.name, 0) {
        Some(i) => modules.update(i, module),
        None => modules.push(module),
    }
}

/// The module that every language chain ends in: it has no file, requires nothing and
/// provides nothing, and it is its own language.
pub open spec fn root_module() -> ModuleModel {
    ModuleModel {
        name: TOP_LEVEL_MODULE_NAME@,
        language: TOP_LEVEL_MODULE_NAME@,
        file_name: crate::file::EMPTY_FILE_NAME@,
        contents: Seq::empty(),
        tree: Seq::empty(),
        requirements: Seq::empty(),
        provides: Seq::empty(),
    }
}

/// The directory `dir` holds the file `file`: the path of the file is the path of the
/// directory followed by a separator and more.
pub open spec fn path_holds(dir: Seq<char>, file: Seq<char>) -> bool {
    file == dir || (dir.len() < file.len() && file.take(dir.len() as int) == dir && (file[dir.len() as int]
        == '/' || (dir.len() > 0 && dir.last() == '/')))
}

/// The first of `paths[from..]` that holds `file`.
pub open spec fn parent_among(paths: Seq<Seq<char>>, file: Seq<char>, from: int) -> Option<int>
    decreases paths.len() - from,
{
    if from < 0 || from >= paths.len() {
        None
    } else if path_holds(paths[from], file) {
        Some(from)
    } else {
        parent_among(paths, file, from + 1)
    }
}

/// Where `parent_among` points, a path that holds the file stands.
pub proof fn lemma_parent_holds(paths: Seq<Seq<char>>, file: Seq<char>, from: int)
    requires
        0 <= from,
    ensures
        parent_among(paths, file, from) matches Some(i) ==> from <= i < paths.len() && path_holds(
            paths[i],
            file,
        ),
    decreases paths.len() - from,
{
    if from < paths.len() && !path_holds(paths[from], file) {
        lemma_parent_holds(paths, file, from + 1);
    }
}

/// The name of the file of the module `module_name` below a module path: the name
/// without a `/` at its start, and `.fusion`.
pub open spec fn module_file_name(module_name: Seq<char>) -> Seq<char> {
    (if module_name.len() > 0 && module_name[0] == '/' {
        module_name.drop_first()
    } else {
        module_name
    }) + FILE_EXTENSION@
}

/// The files in which the module `module_name` is looked for: its file name below each
/// module path, in the order of the paths.
pub open spec fn module_files(paths: Seq<Seq<char>>, module_name: Seq<char>) -> Seq<Seq<char>> {
    paths.map_values(|path: Seq<char>| path + seq!['/'] + module_file_name(module_name))
}

/// Whether the directory `dir` holds the file `file`.
pub fn holds_path(dir: &str, file: &str) -> (holds: bool)
    ensures
        holds == path_holds(dir@, file@),
{
    let d = to_chars(dir);
    let f = to_chars(file);
    if d.len() > f.len() {
        return false;
    }
    let mut i: usize = 0;
    while i < d.len()
        invariant
            i <= d.len() <= f.len(),
            d@ == dir@,
            f@ == file@,
            forall|j: int| 0 <= j < i ==> d@[j] == f@[j],
        decreases d.len() - i,
    {
        if d[i] != f[i] {
            assert(f@.take(d.len() as int)[i as int] != d@[i as int]);
            assert(f@.take(d.len() as int) != d@);
            assert(f@[i as int] != d@[i as int]);
            assert(f@ != d@);
            return false;
        }
        i += 1;
    }
    assert(f@.take(d.len() as int) =~= d@);
    if d.len() == f.len() {
        assert(f@ =~= d@);
        true
    } else {
        f[d.len()] == '/' || (d.len() > 0 && d[d.len() - 1] == '/')
    }
}

impl FusionIndex {
    /// The path of the package.
    pub closed spec fn package_path(&self) -> Seq<char> {
        self.current_package_path@
    }

    /// The paths under which modules are looked for.
    pub closed spec fn paths(&self) -> Seq<Seq<char>> {
        texts(self.module_paths@)
    }

    /// The modules, in the order in which their names came in.
    pub closed spec fn module_models(&self) -> Seq<ModuleModel> {
        module_views(self.modules@)
    }

    /// The scripts, in the order in which their names came in.
    pub closed spec fn script_list(&self) -> Seq<Script> {
        self.scripts@
    }

    /// An index without modules and scripts. The paths are taken as they are.
    pub fn new(current_package_path: String, module_paths: Vec<String>) -> (index: FusionIndex)
        ensures
            index.package_path() == current_package_path@,
            index.paths() == texts(module_paths@),
            index.module_models() == Seq::<ModuleModel>::empty(),
            index.script_list() == Seq::<Script>::empty(),
    {
        let index = FusionIndex {
            current_package_path,
            module_paths,
            modules: Vec::new(),
            scripts: Vec::new(),
        };
        assert(index.module_models() =~= Seq::<ModuleModel>::empty());
        index
    }

    pub fn current_package_path(&self) -> (path: &str)
        ensures
            path@ == self.package_path(),
    {
        self.current_package_path.as_str()
    }

    /// The modules.
    pub fn module_iter(&self) -> (modules: &Vec<Module>)
        ensures
            module_views(modules@) == self.module_models(),
    {
        &self.modules
    }

    /// The scripts.
    pub fn script_iter(&self) -> (scripts: &Vec<Script>)
        ensures
            scripts@ == self.script_list(),
    {
        &self.scripts
    }

    /// Position of the module called `name`.
    fn find_module(&self, name: &str) -> (at: Option<usize>)
        ensures
            match at {
                Some(i) => module_position(self.module_models(), name@, 0) == Some(i as int) && i
                    < self.modules.len(),
                None => module_position(self.module_models(), name@, 0) is None,
            },
    {
        let ghost all = self.module_models();
        let mut i: usize = 0;
        while i < self.modules.len()
            invariant
                i <= self.modules.len(),
                all == module_views(self.modules@),
                module_position(all, name@, i as int) == module_position(all, name@, 0),
            decreases self.modules.len() - i,
        {
            assert(all[i as int] == self.modules[i as int]@);
            if same_text(self.modules[i].name.as_str(), name) {
                return Some(i);
            }
            i += 1;
        }
        None
    }

    /// The module called `name`.
    pub fn get_module(&self, name: &str) -> (module: Option<&Module>)
        ensures
            match module {
                Some(m) => module_position(self.module_models(), name@, 0) matches Some(i) && m@
                    == self.module_models()[i],
                None => module_position(self.module_models(), name@, 0) is None,
            },
    {
        match self.find_module(name) {
            Some(i) => {
                assert(self.module_models()[i as int] == self.modules[i as int]@);
                Some(&self.modules[i])
            },
            None => None,
        }
    }

    /// Puts `module` into the index, in place of the module of its name if there is one.
    pub fn put_module(&mut self, module: Module)
        ensures
            final(self).module_models() == with_module(old(self).module_models(), module@),
            final(self).script_list() == old(self).script_list(),
            final(self).paths() == old(self).paths(),
            final(self).package_path() == old(self).package_path(),
    {
        let ghost before = self.module_models();
        match self.find_module(module.name.as_str()) {
            Some(i) => {
                self.modules.remove(i);
                self.modules.insert(i, module);
                assert(self.module_models() =~= before.update(i as int, module@));
            },
            None => {
                self.modules.push(module);
                assert(self.module_models() =~= before.push(module@));
            },
        }
    }

    /// The module that every language chain ends in; it is put into the index if it is
    /// not there yet.
    pub fn get_root_module(&mut self) -> (module: &Module)
        ensures
            final(self).module_models() == (if module_position(
                old(self).module_models(),
                TOP_LEVEL_MODULE_NAME@,
                0,
            ) is Some {
                old(self).module_models()
            } else {
                old(self).module_models().push(root_module())
            }),
            module_position(final(self).module_models(), TOP_LEVEL_MODULE_NAME@, 0) matches Some(i)
                && module@ == final(self).module_models()[i],
            final(self).script_list() == old(self).script_list(),
            final(self).paths() == old(self).paths(),
            final(self).package_path() == old(self).package_path(),
    {
        if self.find_module(TOP_LEVEL_MODULE_NAME).is_none() {
            let root = Module::new(
                TOP_LEVEL_MODULE_NAME.to_owned(),
                TOP_LEVEL_MODULE_NAME.to_owned(),
                FusionFile::empty_file(),
                Vec::new(),
                Vec::new(),
            );
            proof {
                lemma_with_module_found(self.module_models(), root@);
                assert(root@.tree =~= Seq::<crate::model::Node>::empty());
                assert(root@.requirements =~= Seq::<crate::index::module::Requirement>::empty());
                assert(root@.provides =~= Seq::<Named>::empty());
            }
            self.put_module(root);
        }
        match self.get_module(TOP_LEVEL_MODULE_NAME) {
            Some(module) => module,
            None => vstd::pervasive::unreached(),
        }
    }

    /// The script called `name`.
    pub fn get_script(&self, name: &str) -> (script: Option<&Script>)
        ensures
            match script {
                Some(s) => script_position(self.script_list(), name@, 0) matches Some(i) && *s
                    == self.script_list()[i],
                None => script_position(self.script_list(), name@, 0) is None,
            },
    {
        let mut i: usize = 0;
        while i < self.scripts.len()
            invariant
                i <= self.scripts.len(),
                script_position(self.scripts@, name@, i as int) == script_position(
                    self.scripts@,
                    name@,
                    0,
                ),
            decreases self.scripts.len() - i,
        {
            if same_text(self.scripts[i].name.as_str(), name) {
                return Some(&self.scripts[i]);
            }
            i += 1;
        }
        None
    }

    /// Puts `script` into the index, in place of the script of its name if there is one.
    pub fn put_script(&mut self, script: Script)
        ensures
            final(self).script_list() == (match script_position(
                old(self).script_list(),
                script.name@,
                0,
            ) {
                Some(i) => old(self).script_list().update(i, script),
                None => old(self).script_list().push(script),
            }),
            final(self).module_models() == old(self).module_models(),
            final(self).paths() == old(self).paths(),
            final(self).package_path() == old(self).package_path(),
    {
        let mut i: usize = 0;
        while i < self.scripts.len()
            invariant
                i <= self.scripts.len(),
                self.scripts@ == old(self).scripts@,
                self.modules@ == old(self).modules@,
                self.module_paths@ == old(self).module_paths@,
                self.current_package_path@ == old(self).current_package_path@,
                script_position(self.scripts@, script.name@, i as int) == script_position(
                    self.scripts@,
                    script.name@,
                    0,
                ),
            decreases self.scripts.len() - i,
        {
            if same_text(self.scripts[i].name.as_str(), script.name.as_str()) {
                self.scripts.remove(i);
                self.scripts.insert(i, script);
                assert(self.scripts@ =~= old(self).scripts@.update(i as int, script));
                return ;
            }
            i += 1;
        }
        self.scripts.push(script);
    }

    /// The files in which the module `module_name` is looked for, in the order in which
    /// they are tried.
    pub fn find_module_file(&self, module_name: &str) -> (files: Vec<String>)
        ensures
            texts(files@) == module_files(self.paths(), module_name@),
    {
        let name = to_chars(module_name);
        let mut file_name: Vec<char> = Vec::new();
        let mut k: usize = if name.len() > 0 && name[0] == '/' {
            1
        } else {
            0
        };
        let ghost start = k;
        while k < name.len()
            invariant
                start <= k <= name.len(),
                file_name@ == name@.subrange(start as int, k as int),
            decreases name.len() - k,
        {
            file_name.push(name[k]);
            k += 1;
            assert(file_name@ =~= name@.subrange(start as int, k as int));
        }
        push_str(&mut file_name, FILE_EXTENSION);
        assert(file_name@ =~= module_file_name(module_name@));
        let mut files: Vec<String> = Vec::new();
        let mut i: usize = 0;
        while i < self.module_paths.len()
            invariant
                i <= self.module_paths.len(),
                file_name@ == module_file_name(module_name@),
                files.len() == i,
                forall|j: int|
                    0 <= j < i ==> files[j]@ == self.module_paths[j]@ + seq!['/']
                        + module_file_name(module_name@),
            decreases self.module_paths.len() - i,
        {
            let mut path = to_chars(self.module_paths[i].as_str());
            path.push('/');
            push_all(&mut path, &file_name);
            files.push(to_string(&path));
            i += 1;
        }
        assert(texts(files@) =~= module_files(self.paths(), module_name@));
        files
    }

    /// The first module path that holds the file `file_path`.
    pub fn find_parent_path(&self, file_path: &str) -> (parent: Option<&str>)
        ensures
            match parent {
                Some(path) => parent_among(self.paths(), file_path@, 0) matches Some(i) && path@
                    == self.paths()[i],
                None => parent_among(self.paths(), file_path@, 0) is None,
            },
    {
        let ghost all = self.paths();
        let mut i: usize = 0;
        while i < self.module_paths.len()
            invariant
                i <= self.module_paths.len(),
                all == texts(self.module_paths@),
                parent_among(all, file_path@, i as int) == parent_among(all, file_path@, 0),
            decreases self.module_paths.len() - i,
        {
            assert(all[i as int] == self.module_paths[i as int]@);
            if holds_path(self.module_paths[i].as_str(), file_path) {
                return Some(self.module_paths[i].as_str());
            }
            i += 1;
        }
        None
    }
}

impl RequireForm {
    /// The place that the required name `name` comes from: for a module that is required
    /// as a whole, the place at which the module provides it.
    pub open spec fn origin_of(self, modules: Seq<ModuleModel>, name: Seq<char>) -> Option<
        ShortSpan,
    > {
        match self@.required {
            crate::index::module::Required::All => match module_position(modules, self.module@, 0) {
                Some(i) => place_of(modules[i].provides, name, 0),
                None => None,
            },
            crate::index::module::Required::Names(names) => place_of(names, name, 0),
            crate::index::module::Required::Mapped(mapping) => mapped_place_of(mapping, name, 0),
        }
    }

    pub fn find_origin(&self, index: &FusionIndex, name: &str) -> (place: Option<ShortSpan>)
        ensures
            place == self.origin_of(index.module_models(), name@),
    {
        match &self.required {
            RequireType::All => match index.get_module(self.module.as_str()) {
                Some(module) => find_place(&module.provides, name),
                None => None,
            },
            RequireType::Names(names) => find_origin(names, name),
            RequireType::Mapped(mapping) => find_mapped_origin(mapping, name),
        }
    }
}

/// The place of the first of `names` that is called `name`.
fn find_origin(names: &Vec<Origin>, name: &str) -> (place: Option<ShortSpan>)
    ensures
        place == place_of(names@.map_values(|o: Origin| o@), name@, 0),
{
    let ghost all = names@.map_values(|o: Origin| o@);
    let mut i: usize = 0;
    while i < names.len()
        invariant
            i <= names.len(),
            all == names@.map_values(|o: Origin| o@),
            place_of(all, name@, i as int) == place_of(all, name@, 0),
        decreases names.len() - i,
    {
        assert(all[i as int] == names[i as int]@);
        if same_text(names[i].name.as_str(), name) {
            return Some(names[i].originates_from);
        }
        i += 1;
    }
    None
}

/// The place of the first of `mapping` whose origin is called `name`.
fn find_mapped_origin(mapping: &Vec<Mapping>, name: &str) -> (place: Option<ShortSpan>)
    ensures
        place == mapped_place_of(mapping@.map_values(|m: Mapping| m@), name@, 0),
{
    let ghost all = mapping@.map_values(|m: Mapping| m@);
    let mut i: usize = 0;
    while i < mapping.len()
        invariant
            i <= mapping.len(),
            all == mapping@.map_values(|m: Mapping| m@),
            mapped_place_of(all, name@, i as int) == mapped_place_of(all, name@, 0),
        decreases mapping.len() - i,
    {
        assert(all[i as int] == mapping[i as int]@);
        if same_text(mapping[i].origin.name.as_str(), name) {
            return Some(mapping[i].origin.originates_from);
        }
        i += 1;
    }
    None
}

} // verus!
