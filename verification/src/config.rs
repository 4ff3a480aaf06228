//! The settings of a unit test project: how the program under test is
//! built and which test script runs it. A project's settings may draw on
//! other settings files; merging them keeps the last value of a setting
//! and gathers lists in load order.
use crate::error::{AppError, AppResult};
use crate::text::push_str;
use vstd::prelude::*;

verus! {

/// The compilers a project can be built with.
#[derive(Debug, Clone, Copy, PartialEq, Eq, Structural)]
pub enum CompilerType {
    CC65,
}

/// The settings of a project; every setting is optional.
#[derive(Debug)]
pub struct Config {
    pub name: Option<String>,
    pub target: Option<String>,
    pub compiler: Option<CompilerType>,
    pub include_paths: Option<Vec<String>>,
    pub src_files: Option<Vec<String>>,
    pub test_script: Option<String>,
    /// Other settings files this one draws on.
    pub configs: Option<Vec<String>>,
    pub config_file: Option<String>,
    pub asm_include_paths: Option<Vec<String>>,
    pub c_flags: Option<Vec<String>>,
    pub asm_flags: Option<Vec<String>>,
    pub ld_flags: Option<Vec<String>>,
}

/// The settings as text values.
pub struct ConfigView {
    pub name: Option<Seq<char>>,
    pub target: Option<Seq<char>>,
    pub compiler: Option<CompilerType>,
    pub include_paths: Option<Seq<Seq<char>>>,
    pub src_files: Option<Seq<Seq<char>>>,
    pub test_script: Option<Seq<char>>,
    pub configs: Option<Seq<Seq<char>>>,
    pub config_file: Option<Seq<char>>,
    pub asm_include_paths: Option<Seq<Seq<char>>>,
    pub c_flags: Option<Seq<Seq<char>>>,
    pub asm_flags: Option<Seq<Seq<char>>>,
    pub ld_flags: Option<Seq<Seq<char>>>,
}

/// The text of an optional string.
pub open spec fn text(s: Option<String>) -> Option<Seq<char>> {
    match s {
        Some(t) => Some(t@),
        None => None,
    }
}

/// The texts of an optional list of strings.
pub open spec fn texts(v: Option<Vec<String>>) -> Option<Seq<Seq<char>>> {
    match v {
        Some(l) => Some(l@.map_values(|t: String| t@)),
        None => None,
    }
}

impl View for Config {
    type V = ConfigView;

    open spec fn view(&self) -> ConfigView {
        ConfigView {
            name: text(self.name),
            target: text(self.target),
            compiler: self.compiler,
            include_paths: texts(self.include_paths),
            src_files: texts(self.src_files),
            test_script: text(self.test_script),
            configs: texts(self.configs),
            config_file: text(self.config_file),
            asm_include_paths: texts(self.asm_include_paths),
            c_flags: texts(self.c_flags),
            asm_flags: texts(self.asm_flags),
            ld_flags: texts(self.ld_flags),
        }
    }
}

/// `later` when it is set, else `earlier`.
pub open spec fn prefer<T>(earlier: Option<T>, later: Option<T>) -> Option<T> {
    match later {
        Some(v) => Some(v),
        None => earlier,
    }
}

/// Both lists, `earlier` first; either one when the other is unset.
pub open spec fn joined(earlier: Option<Seq<Seq<char>>>, later: Option<Seq<Seq<char>>>) -> Option<Seq<Seq<char>>> {
    match (earlier, later) {
        (Some(a), Some(b)) => Some(a + b),
        (Some(a), None) => Some(a),
        (None, b) => b,
    }
}

/// The settings `later` merged into `earlier`: a value set in `later`
/// wins, lists are joined, and references to other files are dropped.
pub open spec fn merged(earlier: ConfigView, later: ConfigView) -> ConfigView {
    ConfigView {
        name: prefer(earlier.name, later.name),
        target: prefer(earlier.target, later.target),
        compiler: prefer(earlier.compiler, later.compiler),
        include_paths: joined(earlier.include_paths, later.include_paths),
        src_files: joined(earlier.src_files, later.src_files),
        test_script: prefer(earlier.test_script, later.test_script),
        configs: None,
        config_file: prefer(earlier.config_file, later.config_file),
        asm_include_paths: joined(earlier.asm_include_paths, later.asm_include_paths),
        c_flags: joined(earlier.c_flags, later.c_flags),
        asm_flags: joined(earlier.asm_flags, later.asm_flags),
        ld_flags: joined(earlier.ld_flags, later.ld_flags),
    }
}

/// Settings with nothing set.
pub open spec fn empty_settings() -> ConfigView {
    ConfigView {
        name: None,
        target: None,
        compiler: None,
        include_paths: None,
        src_files: None,
        test_script: None,
        configs: None,
        config_file: None,
        asm_include_paths: None,
        c_flags: None,
        asm_flags: None,
        ld_flags: None,
    }
}

/// The settings of files merged in load order, base files first.
pub open spec fn merged_all(files: Seq<ConfigView>) -> ConfigView
    decreases files.len(),
{
    if files.len() == 0 {
        empty_settings()
    } else {
        merged(merged_all(files.drop_last()), files.last())
    }
}

/// `later` merged into `earlier`, as an optional string.
fn prefer_string(earlier: Option<String>, later: Option<String>) -> (r: Option<String>)
    ensures
        text(r) == prefer(text(earlier), text(later)),
{
    match later {
        Some(v) => Some(v),
        None => earlier,
    }
}

/// Both lists joined, `earlier` first.
fn join_lists(earlier: Option<Vec<String>>, later: Option<Vec<String>>) -> (r: Option<Vec<String>>)
    ensures
        texts(r) == joined(texts(earlier), texts(later)),
{
    match (earlier, later) {
        (Some(mut ours), Some(mut theirs)) => {
            let ghost a = ours@;
            let ghost b = theirs@;
            ours.append(&mut theirs);
            assert(ours@.map_values(|t: String| t@) =~= a.map_values(|t: String| t@) + b.map_values(
                |t: String| t@,
            ));
            Some(ours)
        },
        (Some(ours), None) => Some(ours),
        (None, theirs) => theirs,
    }
}

impl Config {
    /// The settings `other` merged into these: a value set in `other`
    /// wins, lists are joined with these first, and references to other
    /// files are dropped.
    pub fn merge(self, other: Config) -> (c: Config)
        ensures
            c@ == merged(self@, other@),
    {
        Config {
            name: prefer_string(self.name, other.name),
            target: prefer_string(self.target, other.target),
            compiler: match other.compiler {
                Some(c) => Some(c),
                None => self.compiler,
            },
            test_script: prefer_string(self.test_script, other.test_script),
            config_file: prefer_string(self.config_file, other.config_file),
            configs: None,
            include_paths: join_lists(self.include_paths, other.include_paths),
            src_files: join_lists(self.src_files, other.src_files),
            asm_include_paths: join_lists(self.asm_include_paths, other.asm_include_paths),
            c_flags: join_lists(self.c_flags, other.c_flags),
            asm_flags: join_lists(self.asm_flags, other.asm_flags),
            ld_flags: join_lists(self.ld_flags, other.ld_flags),
        }
    }

    /// The settings of files given in load order (base files first), each
    /// merged into those before it.
    pub fn merge_all(files: Vec<Config>) -> (c: Config)
        ensures
            c@ == merged_all(files@.map_values(|f: Config| f@)),
    {
        let ghost views = files@.map_values(|f: Config| f@);
        let mut result = Config::default();
        let mut rest = files;
        let mut i: usize = 0;
        let n = rest.len();
        let mut reversed: Vec<Config> = Vec::new();
        while rest.len() > 0
            invariant
                reversed@.len() + rest@.len() == views.len(),
                forall|k: int| 0 <= k < rest@.len() ==> #[trigger] rest@[k]@ == views[k],
                forall|k: int| 0 <= k < reversed@.len() ==> #[trigger] reversed@[k]@ == views[views.len() - 1 - k],
            decreases rest@.len(),
        {
            let f = rest.pop().unwrap();
            reversed.push(f);
        }
        while reversed.len() > 0
            invariant
                i + reversed@.len() == views.len(),
                views.len() == n,
                forall|k: int| 0 <= k < reversed@.len() ==> #[trigger] reversed@[k]@ == views[views.len() - 1 - k],
                result@ == merged_all(views.subrange(0, i as int)),
            decreases reversed@.len(),
        {
            let f = reversed.pop().unwrap();
            proof {
                assert(views.subrange(0, i + 1).drop_last() =~= views.subrange(0, i as int));
            }
            result = result.merge(f);
            i = i + 1;
        }
        assert(views.subrange(0, views.len() as int) =~= views);
        result
    }
}

impl Default for Config {
    fn default() -> (c: Config)
        ensures
            c@ == empty_settings(),
    {
        Config {
            name: None,
            target: None,
            compiler: None,
            include_paths: None,
            src_files: None,
            test_script: None,
            configs: None,
            config_file: None,
            asm_include_paths: None,
            c_flags: None,
            asm_flags: None,
            ld_flags: None,
        }
    }
}

/// Joining lists is associative.
proof fn lemma_joined_associative(
    x: Option<Seq<Seq<char>>>,
    y: Option<Seq<Seq<char>>>,
    z: Option<Seq<Seq<char>>>,
)
    ensures
        joined(joined(x, y), z) == joined(x, joined(y, z)),
{
    if let (Some(a), Some(b), Some(c)) = (x, y, z) {
        assert(a + b + c =~= a + (b + c));
    }
}

/// Merging is associative: merging files one by one, or a group of them
/// first, gives the same settings.
pub proof fn law_merge_associative(a: ConfigView, b: ConfigView, c: ConfigView)
    ensures
        merged(merged(a, b), c) == merged(a, merged(b, c)),
{
    lemma_joined_associative(a.include_paths, b.include_paths, c.include_paths);
    lemma_joined_associative(a.src_files, b.src_files, c.src_files);
    lemma_joined_associative(a.asm_include_paths, b.asm_include_paths, c.asm_include_paths);
    lemma_joined_associative(a.c_flags, b.c_flags, c.c_flags);
    lemma_joined_associative(a.asm_flags, b.asm_flags, c.asm_flags);
    lemma_joined_associative(a.ld_flags, b.ld_flags, c.ld_flags);
}

/// Merging into settings with nothing set gives the merged file's own
/// settings, less its references to other files.
pub proof fn law_merge_into_nothing(x: ConfigView)
    ensures
        merged(empty_settings(), x) == (ConfigView { configs: None, ..x }),
{
}

/// A file's own values win over those of every file loaded before it,
/// and its lists come last.
pub proof fn law_later_file_wins(files: Seq<ConfigView>)
    requires
        files.len() > 0,
    ensures
        files.last().name is Some ==> merged_all(files).name == files.last().name,
        files.last().target is Some ==> merged_all(files).target == files.last().target,
        files.last().compiler is Some ==> merged_all(files).compiler == files.last().compiler,
        files.last().test_script is Some ==> merged_all(files).test_script == files.last().test_script,
        files.last().config_file is Some ==> merged_all(files).config_file == files.last().config_file,
        merged_all(files).configs is None,
        files.last().src_files matches Some(l) ==> merged_all(files).src_files matches Some(all) && all.len()
            >= l.len() && all.subrange(all.len() - l.len(), all.len() as int) == l,
{
    let all = merged_all(files);
    if let Some(l) = files.last().src_files {
        match merged_all(files.drop_last()).src_files {
            Some(x) => assert((x + l).subrange((x + l).len() - l.len(), (x + l).len() as int) =~= l),
            None => assert(l.subrange(0, l.len() as int) =~= l),
        }
    }
}

/// The texts of a list of strings.
pub open spec fn string_texts(v: Seq<String>) -> Seq<Seq<char>> {
    v.map_values(|t: String| t@)
}

/// The arguments the tester is run with for a project: `-v` when verbose,
/// then `-i` and the test script; an error when the project names no test
/// script.
pub fn tester_arguments(verbose: bool, test_script: &Option<String>) -> (r: AppResult<Vec<String>>)
    ensures
        match test_script {
            None => r is Err,
            Some(t) => r matches Ok(v) && string_texts(v@) == (if verbose {
                seq!["-v"@]
            } else {
                Seq::<Seq<char>>::empty()
            }) + seq!["-i"@, t@],
        },
{
    let script = match test_script {
        Some(t) => t,
        None => {
            let mut e = String::new();
            push_str(&mut e, "No test script specified in config");
            return Err(AppError::new(e));
        },
    };
    let mut args: Vec<String> = Vec::new();
    if verbose {
        args.push(String::from_str("-v"));
    }
    args.push(String::from_str("-i"));
    args.push(script.clone());
    proof {
        let expected = (if verbose {
            seq!["-v"@]
        } else {
            Seq::<Seq<char>>::empty()
        }) + seq!["-i"@, script@];
        assert(string_texts(args@) =~= expected);
    }
    Ok(args)
}

/// A settings file as far as its load order needs it: its path, the
/// directory its references are read from, and each file it refers to, as
/// written and as resolved against that directory.
pub struct ConfigFile {
    pub path: String,
    pub dir: String,
    pub references: Vec<(String, String)>,
}

/// A settings file as text: path, directory, references.
pub type ConfigFileView = (Seq<char>, Seq<char>, Seq<(Seq<char>, Seq<char>)>);

/// The texts of a settings file.
pub open spec fn file_view(f: ConfigFile) -> ConfigFileView {
    (f.path@, f.dir@, f.references@.map_values(|r: (String, String)| (r.0@, r.1@)))
}

/// The texts of settings files.
pub open spec fn file_views(v: Seq<ConfigFile>) -> Seq<ConfigFileView> {
    v.map_values(|f: ConfigFile| file_view(f))
}

/// Position of the first file with path `path`.
pub open spec fn find_file(files: Seq<ConfigFileView>, path: Seq<char>) -> Option<int>
    decreases files.len(),
{
    if files.len() == 0 {
        None
    } else {
        match find_file(files.drop_last(), path) {
            Some(i) => Some(i),
            None => if files.last().0 == path {
                Some(files.len() - 1)
            } else {
                None
            },
        }
    }
}

/// The message for a file reached a second time.
pub open spec fn circular_text(path: Seq<char>) -> Seq<char> {
    "Circular dependency detected while loading config: "@ + path
}

/// The message for a reference to a file that does not exist.
pub open spec fn missing_config_text(written: Seq<char>, dir: Seq<char>) -> Seq<char> {
    "Config file not found: "@ + written + ". Paths are resolved relative to the config file directory: "@ + dir
}

/// The load order from `path` on, depth first: the files it refers to,
/// each with its own before it, then `path` itself; with the paths seen
/// after it. A path seen before (anywhere earlier in the walk) is an
/// error, and so is a reference to a file that does not exist. `fuel`
/// bounds the number of files visited.
pub open spec fn order_from(
    files: Seq<ConfigFileView>,
    path: Seq<char>,
    seen: Seq<Seq<char>>,
    fuel: nat,
) -> Result<(Seq<Seq<char>>, Seq<Seq<char>>), Seq<char>>
    decreases fuel, 0nat,
{
    if seen.contains(path) || fuel == 0 {
        Err(circular_text(path))
    } else {
        match find_file(files, path) {
            None => Err(missing_config_text(path, seq![])),
            Some(i) => match order_refs(files, files[i].2, 0, files[i].1, seen.push(path), seq![], (fuel - 1) as nat) {
                Err(m) => Err(m),
                Ok((order, after)) => Ok((order.push(path), after)),
            },
        }
    }
}

/// The load order of the references `refs` from the `k`-th on, after the
/// order `acc` was found, with the paths `seen`.
pub open spec fn order_refs(
    files: Seq<ConfigFileView>,
    refs: Seq<(Seq<char>, Seq<char>)>,
    k: int,
    dir: Seq<char>,
    seen: Seq<Seq<char>>,
    acc: Seq<Seq<char>>,
    fuel: nat,
) -> Result<(Seq<Seq<char>>, Seq<Seq<char>>), Seq<char>>
    decreases fuel, refs.len() - k + 1,
{
    if k < 0 || k >= refs.len() {
        Ok((acc, seen))
    } else if find_file(files, refs[k].1) is None {
        Err(missing_config_text(refs[k].0, dir))
    } else {
        match order_from(files, refs[k].1, seen, fuel) {
            Err(m) => Err(m),
            Ok((order, after)) => order_refs(files, refs, k + 1, dir, after, acc + order, fuel),
        }
    }
}

/// The order in which the settings files are loaded for the project file
/// `path`, its dependencies first.
pub open spec fn load_order(files: Seq<ConfigFileView>, path: Seq<char>) -> Result<Seq<Seq<char>>, Seq<char>> {
    match order_from(files, path, seq![], files.len() + 1) {
        Ok((order, _)) => Ok(order),
        Err(m) => Err(m),
    }
}

/// Position of the first file with path `path`.
fn position_of(files: &Vec<ConfigFile>, path: &String) -> (r: Option<usize>)
    ensures
        r is None <==> find_file(file_views(files@), path@) is None,
        r matches Some(j) ==> find_file(file_views(files@), path@) == Some(j as int),
{
    let ghost all = file_views(files@);
    let mut i: usize = 0;
    while i < files.len()
        invariant
            i <= files@.len(),
            all == file_views(files@),
            find_file(all.subrange(0, i as int), path@) is None,
        decreases files@.len() - i,
    {
        assert(all.subrange(0, i + 1).drop_last() =~= all.subrange(0, i as int));
        if files[i].path == *path {
            proof {
                assert(all[i as int].0 == path@);
                assert(all.subrange(0, i + 1).last() == all[i as int]);
                lemma_find_file_prefix(all, path@, (i + 1) as int);
            }
            return Some(i);
        }
        i = i + 1;
    }
    assert(all.subrange(0, all.len() as int) =~= all);
    None
}

/// A found file is at a position of the files, and has the path sought.
proof fn lemma_find_file_found(files: Seq<ConfigFileView>, path: Seq<char>)
    ensures
        find_file(files, path) matches Some(i) ==> 0 <= i < files.len() && files[i].0 == path,
    decreases files.len(),
{
    if files.len() > 0 {
        lemma_find_file_found(files.drop_last(), path);
    }
}

/// Finding a path in a prefix of the files finds it in all of them.
proof fn lemma_find_file_prefix(files: Seq<ConfigFileView>, path: Seq<char>, n: int)
    requires
        0 <= n <= files.len(),
        find_file(files.subrange(0, n), path) is Some,
    ensures
        find_file(files, path) == find_file(files.subrange(0, n), path),
    decreases files.len() - n,
{
    if n < files.len() {
        let m = files.subrange(0, n + 1);
        assert(m.drop_last() =~= files.subrange(0, n));
        lemma_find_file_prefix(files, path, n + 1);
    } else {
        assert(files.subrange(0, n) =~= files);
    }
}

/// Whether `path` is among `seen`.
fn is_seen(seen: &Vec<String>, path: &String) -> (b: bool)
    ensures
        b == string_texts(seen@).contains(path@),
{
    let mut i: usize = 0;
    while i < seen.len()
        invariant
            i <= seen@.len(),
            forall|k: int| 0 <= k < i ==> seen@[k]@ != path@,
        decreases seen@.len() - i,
    {
        if seen[i] == *path {
            assert(string_texts(seen@)[i as int] == path@);
            return true;
        }
        i = i + 1;
    }
    proof {
        if string_texts(seen@).contains(path@) {
            let k = choose|k: int| 0 <= k < string_texts(seen@).len() && string_texts(seen@)[k] == path@;
            assert(seen@[k]@ == path@);
        }
    }
    false
}

/// The load order from `path` on (see `order_from`), recording the paths
/// it visits in `seen`.
fn order_from_exec(files: &Vec<ConfigFile>, path: &String, seen: &mut Vec<String>, fuel: usize) -> (r: AppResult<
    Vec<String>,
>)
    ensures
        match order_from(file_views(files@), path@, string_texts(old(seen)@), fuel as nat) {
            Ok((order, after)) => r matches Ok(v) && string_texts(v@) == order && string_texts(final(seen)@) == after,
            Err(m) => r matches Err(e) && e.message@ == m,
        },
    decreases fuel, 0nat,
{
    let ghost all = file_views(files@);
    if is_seen(seen, path) || fuel == 0 {
        let mut s = String::new();
        push_str(&mut s, "Circular dependency detected while loading config: ");
        push_str(&mut s, path.as_str());
        return Err(AppError::new(s));
    }
    let ghost before = string_texts(seen@);
    proof {
        lemma_find_file_found(all, path@);
    }
    let i = match position_of(files, path) {
        None => {
            let mut s = String::new();
            push_str(&mut s, "Config file not found: ");
            push_str(&mut s, path.as_str());
            push_str(&mut s, ". Paths are resolved relative to the config file directory: ");
            return Err(AppError::new(s));
        },
        Some(i) => i,
    };
    seen.push(path.clone());
    assert(string_texts(seen@) =~= before.push(path@));
    let file = &files[i];
    assert(all[i as int] == file_view(*file));
    let ghost refs = all[i as int].2;
    assert(!before.contains(path@));
    assert(fuel != 0);
    assert(find_file(all, path@) == Some(i as int));
    assert(all[i as int].1 == file.dir@);
    assert(order_from(all, path@, before, fuel as nat) == match order_refs(
        all,
        refs,
        0,
        file.dir@,
        before.push(path@),
        seq![],
        (fuel - 1) as nat,
    ) {
        Err(m) => Err(m),
        Ok((order, after)) => Ok((order.push(path@), after)),
    });
    let mut order: Vec<String> = Vec::new();
    assert(string_texts(order@) =~= Seq::<Seq<char>>::empty());
    let mut k: usize = 0;
    while k < file.references.len()
        invariant
            all == file_views(files@),
            refs == file.references@.map_values(|r: (String, String)| (r.0@, r.1@)),
            k <= refs.len(),
            0 < fuel,
            before == string_texts(old(seen)@),
            order_from(all, path@, before, fuel as nat) == match order_refs(
                all,
                refs,
                0,
                file.dir@,
                before.push(path@),
                seq![],
                (fuel - 1) as nat,
            ) {
                Err(m) => Err(m),
                Ok((order, after)) => Ok((order.push(path@), after)),
            },
            order_refs(all, refs, 0, file.dir@, before.push(path@), seq![], (fuel - 1) as nat) == order_refs(
                all,
                refs,
                k as int,
                file.dir@,
                string_texts(seen@),
                string_texts(order@),
                (fuel - 1) as nat,
            ),
        decreases refs.len() - k,
    {
        let reference = &file.references[k];
        assert(refs[k as int] == (reference.0@, reference.1@));
        proof {
            lemma_find_file_found(all, reference.1@);
        }
        if position_of(files, &reference.1).is_none() {
            let mut s = String::new();
            push_str(&mut s, "Config file not found: ");
            push_str(&mut s, reference.0.as_str());
            push_str(&mut s, ". Paths are resolved relative to the config file directory: ");
            push_str(&mut s, file.dir.as_str());
            assert(order_refs(all, refs, k as int, file.dir@, string_texts(seen@), string_texts(order@), (fuel - 1) as nat)
                == Err::<(Seq<Seq<char>>, Seq<Seq<char>>), Seq<char>>(missing_config_text(reference.0@, file.dir@)));
            return Err(AppError::new(s));
        }
        let ghost seen_before = string_texts(seen@);
        let ghost acc = string_texts(order@);
        let sub = order_from_exec(files, &reference.1, seen, fuel - 1);
        match sub {
            Err(e) => {
                assert(order_refs(all, refs, k as int, file.dir@, seen_before, acc, (fuel - 1) as nat)
                    == Err::<(Seq<Seq<char>>, Seq<Seq<char>>), Seq<char>>(e.message@));
                return Err(e);
            },
            Ok(v) => {
                let ghost got = string_texts(v@);
                let mut v = v;
                order.append(&mut v);
                assert(string_texts(order@) =~= acc + got);
            },
        }
        k = k + 1;
    }
    order.push(path.clone());
    proof {
        let o = string_texts(order@);
        assert(o =~= string_texts(order@.drop_last()).push(path@));
    }
    Ok(order)
}

/// The order in which the settings files `files` are loaded for the
/// project file `path` (see `load_order`): each file after the files it
/// refers to, in the order of its references. A file reached twice, and a
/// reference to a file not among `files`, are errors.
pub fn config_load_order(files: &Vec<ConfigFile>, path: &String) -> (r: AppResult<Vec<String>>)
    requires
        files@.len() < usize::MAX,
    ensures
        match load_order(file_views(files@), path@) {
            Ok(order) => r matches Ok(v) && string_texts(v@) == order,
            Err(m) => r matches Err(e) && e.message@ == m,
        },
{
    let mut seen: Vec<String> = Vec::new();
    assert(string_texts(seen@) =~= Seq::<Seq<char>>::empty());
    order_from_exec(files, path, &mut seen, files.len() + 1)
}

} // verus!
