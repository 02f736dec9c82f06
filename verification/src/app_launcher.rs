//! Preset applications a button mapping can open, custom application paths,
//! and the plan of "activate the running window, else launch" for a target.
//! Which executables are installed, which processes run, and the launch
//! itself are platform work; these functions decide from their results.
use vstd::prelude::*;
use crate::text::{
    chars_of, ends_with_chars, lower_chars, lower_seq, push_str, seq_contains, seq_ends_with,
    string_of,
};

verus! {

/// A preset application as the settings window lists it.
#[derive(Debug, Clone, PartialEq, Eq)]
pub struct PresetAppInfo {
    pub id: String,
    pub name: String,
    pub installed: bool,
}

/// A preset application: its id, display name and executable names.
#[derive(Debug, Clone, PartialEq, Eq)]
pub struct PresetApp {
    pub id: &'static str,
    pub name: &'static str,
    pub exe_names: Vec<&'static str>,
}

/// A custom application the user picked.
#[derive(Debug, Clone, PartialEq, Eq)]
pub struct CustomAppPick {
    /// The file name without its extension.
    pub name: String,
    /// The full `.exe` or `.lnk` path, stored as the target of the mapping.
    pub path: String,
}

/// The preset table: SayAll itself first (always installed), then common
/// applications; each entry is (id, name, executable names).
pub open spec fn preset_table() -> Seq<(Seq<char>, Seq<char>, Seq<Seq<char>>)> {
    seq![
        ("sayall"@, "无线麦"@, seq!["sayall-windows-app.exe"@]),
        ("wechat"@, "微信"@, seq!["WeChat.exe"@, "Weixin.exe"@]),
        ("edge"@, "Edge 浏览器"@, seq!["msedge.exe"@]),
        ("chrome"@, "Chrome 浏览器"@, seq!["chrome.exe"@]),
        ("notepad"@, "记事本"@, seq!["notepad.exe"@]),
        ("calc"@, "计算器"@, seq!["calc.exe"@, "CalculatorApp.exe"@]),
        ("explorer"@, "文件资源管理器"@, seq!["explorer.exe"@]),
        ("netease_music"@, "网易云音乐"@, seq!["cloudmusic.exe"@]),
    ]
}

/// The values of a preset application.
pub open spec fn app_view(a: PresetApp) -> (Seq<char>, Seq<char>, Seq<Seq<char>>) {
    (a.id@, a.name@, Seq::new(a.exe_names@.len(), |i: int| a.exe_names@[i]@))
}

fn app(id: &'static str, name: &'static str, exe_names: Vec<&'static str>) -> (r: PresetApp)
    ensures
        r.id == id && r.name == name && r.exe_names == exe_names,
{
    PresetApp { id, name, exe_names }
}

/// The preset table, in order.
pub fn preset_apps() -> (r: Vec<PresetApp>)
    ensures
        r@.len() == preset_table().len(),
        forall|i: int| 0 <= i < r@.len() ==> app_view(#[trigger] r@[i]) == preset_table()[i],
{
    let v = vec![
        app("sayall", "无线麦", vec!["sayall-windows-app.exe"]),
        app("wechat", "微信", vec!["WeChat.exe", "Weixin.exe"]),
        app("edge", "Edge 浏览器", vec!["msedge.exe"]),
        app("chrome", "Chrome 浏览器", vec!["chrome.exe"]),
        app("notepad", "记事本", vec!["notepad.exe"]),
        app("calc", "计算器", vec!["calc.exe", "CalculatorApp.exe"]),
        app("explorer", "文件资源管理器", vec!["explorer.exe"]),
        app("netease_music", "网易云音乐", vec!["cloudmusic.exe"]),
    ];
    assert forall|i: int| 0 <= i < v@.len() implies app_view(#[trigger] v@[i]) == preset_table()[i] by {
        assert(app_view(v@[i]).2 =~= preset_table()[i].2);
    }
    v
}

fn copy_app(a: &PresetApp) -> (r: PresetApp)
    ensures
        app_view(r) == app_view(*a),
{
    let mut names: Vec<&'static str> = Vec::new();
    let mut i: usize = 0;
    while i < a.exe_names.len()
        invariant
            i <= a.exe_names@.len(),
            names@ == a.exe_names@.subrange(0, i as int),
        decreases a.exe_names@.len() - i,
    {
        names.push(a.exe_names[i]);
        i = i + 1;
        assert(names@ =~= a.exe_names@.subrange(0, i as int));
    }
    assert(names@ =~= a.exe_names@);
    let r = PresetApp { id: a.id, name: a.name, exe_names: names };
    assert(app_view(r).2 =~= app_view(*a).2);
    r
}

fn str_eq(a: &str, b: &str) -> (r: bool)
    ensures
        r == (a@ == b@),
{
    let x = chars_of(a);
    let y = chars_of(b);
    crate::text::chars_equal(x.as_slice(), y.as_slice())
}

/// The preset application with this id, if any.
pub fn preset_app(id: &str) -> (r: Option<PresetApp>)
    ensures
        match r {
            Some(a) => exists|i: int|
                0 <= i < preset_table().len() && preset_table()[i].0 == id@ && app_view(a)
                    == preset_table()[i] && forall|j: int| 0 <= j < i ==> preset_table()[j].0 != id@,
            None => forall|i: int| 0 <= i < preset_table().len() ==> preset_table()[i].0 != id@,
        },
{
    let apps = preset_apps();
    let mut i: usize = 0;
    while i < apps.len()
        invariant
            i <= apps@.len(),
            apps@.len() == preset_table().len(),
            forall|k: int| 0 <= k < apps@.len() ==> app_view(#[trigger] apps@[k]) == preset_table()[k],
            forall|k: int| 0 <= k < i ==> preset_table()[k].0 != id@,
        decreases apps@.len() - i,
    {
        assert(app_view(apps@[i as int]) == preset_table()[i as int]);
        if str_eq(apps[i].id, id) {
            let a = copy_app(&apps[i]);
            return Some(a);
        }
        i = i + 1;
    }
    None
}

/// Whether an executable name is in a list of names.
pub open spec fn names_contain(names: Seq<Seq<char>>, n: Seq<char>) -> bool {
    exists|i: int| 0 <= i < names.len() && names[i] == n
}

/// The preset applications with their installed state: SayAll is always
/// installed; another is installed when one of its executables is among the
/// executables the platform found resolvable.
pub fn probe_preset_apps(resolvable_exes: &[String]) -> (r: Vec<PresetAppInfo>)
    ensures
        r@.len() == preset_table().len(),
        forall|i: int|
            0 <= i < r@.len() ==> {
                let (id, name, exes) = preset_table()[i];
                &&& (#[trigger] r@[i]).id@ == id
                &&& r@[i].name@ == name
                &&& r@[i].installed == (id == "sayall"@ || exists|k: int|
                    0 <= k < exes.len() && names_contain(
                        crate::raw_input::string_views(resolvable_exes@),
                        exes[k],
                    ))
            },
{
    let apps = preset_apps();
    let ghost found = crate::raw_input::string_views(resolvable_exes@);
    let mut out: Vec<PresetAppInfo> = Vec::new();
    let mut i: usize = 0;
    while i < apps.len()
        invariant
            i <= apps@.len(),
            apps@.len() == preset_table().len(),
            found == crate::raw_input::string_views(resolvable_exes@),
            forall|k: int| 0 <= k < apps@.len() ==> app_view(#[trigger] apps@[k]) == preset_table()[k],
            out@.len() == i,
            forall|m: int|
                0 <= m < i ==> {
                    let (id, name, exes) = preset_table()[m];
                    &&& (#[trigger] out@[m]).id@ == id
                    &&& out@[m].name@ == name
                    &&& out@[m].installed == (id == "sayall"@ || exists|k: int|
                        0 <= k < exes.len() && names_contain(found, exes[k]))
                },
        decreases apps@.len() - i,
    {
        let a = &apps[i];
        let ghost view = app_view(*a);
        assert(view == preset_table()[i as int]);
        let mut installed = str_eq(a.id, "sayall");
        let mut e: usize = 0;
        let mut any = false;
        while e < a.exe_names.len()
            invariant
                e <= a.exe_names@.len(),
                view == app_view(*a),
                found == crate::raw_input::string_views(resolvable_exes@),
                any == exists|k: int| 0 <= k < e && names_contain(found, view.2[k]),
            decreases a.exe_names@.len() - e,
        {
            let exe = a.exe_names[e];
            assert(view.2[e as int] == exe@);
            let mut j: usize = 0;
            let mut hit = false;
            while j < resolvable_exes.len()
                invariant
                    j <= resolvable_exes@.len(),
                    found == crate::raw_input::string_views(resolvable_exes@),
                    hit == exists|q: int| 0 <= q < j && found[q] == exe@,
                decreases resolvable_exes@.len() - j,
            {
                assert(found[j as int] == resolvable_exes@[j as int]@);
                if str_eq(resolvable_exes[j].as_str(), exe) {
                    hit = true;
                }
                j = j + 1;
            }
            if hit {
                any = true;
            }
            proof {
                if hit {
                    assert(names_contain(found, view.2[e as int]));
                }
                if names_contain(found, view.2[e as int]) {
                    let q = choose|q: int| 0 <= q < found.len() && found[q] == view.2[e as int];
                    assert(exists|q: int| 0 <= q < found.len() && found[q] == exe@);
                }
            }
            e = e + 1;
        }
        installed = installed || any;
        out.push(PresetAppInfo {
            id: String::from_str(a.id),
            name: String::from_str(a.name),
            installed,
        });
        i = i + 1;
    }
    out
}

/// A target that names an executable or a shortcut by path: it contains a
/// path separator and ends with `.exe` or `.lnk`, ignoring ASCII case.
pub open spec fn custom_path_target(target: Seq<char>) -> bool {
    let lower = lower_seq(target);
    (seq_contains(lower, seq!['\\']) || seq_contains(lower, seq!['/'])) && (seq_ends_with(
        lower,
        ".exe"@,
    ) || seq_ends_with(lower, ".lnk"@))
}

pub fn is_custom_path_target(target: &str) -> (r: bool)
    ensures
        r == custom_path_target(target@),
{
    let cs = chars_of(target);
    let lower = lower_chars(cs.as_slice());
    let back = ['\\'];
    let slash = ['/'];
    let exe = chars_of(".exe");
    let lnk = chars_of(".lnk");
    assert(back@ =~= seq!['\\']);
    assert(slash@ =~= seq!['/']);
    (crate::text::contains_chars(lower.as_slice(), &back) || crate::text::contains_chars(
        lower.as_slice(),
        &slash,
    )) && (ends_with_chars(lower.as_slice(), exe.as_slice()) || ends_with_chars(
        lower.as_slice(),
        lnk.as_slice(),
    ))
}

/// Whether a character separates path components on Windows.
pub open spec fn is_separator(c: char) -> bool {
    c == '\\' || c == '/'
}

/// The index after the last separator of `s` (0 when there is none).
pub open spec fn name_start(s: Seq<char>) -> int
    decreases s.len(),
{
    if s.len() == 0 {
        0
    } else if is_separator(s.last()) {
        s.len() as int
    } else {
        name_start(s.drop_last())
    }
}

/// The last path component of `s`.
pub open spec fn file_name_of(s: Seq<char>) -> Seq<char> {
    s.subrange(name_start(s), s.len() as int)
}

proof fn lemma_name_start_bounds(s: Seq<char>)
    ensures
        0 <= name_start(s) <= s.len(),
    decreases s.len(),
{
    if s.len() > 0 && !is_separator(s.last()) {
        lemma_name_start_bounds(s.drop_last());
    }
}

fn file_name_chars(s: &Vec<char>) -> (r: Vec<char>)
    ensures
        r@ == file_name_of(s@),
{
    let mut k: usize = s.len();
    assert(s@.subrange(0, k as int) =~= s@);
    while k > 0 && !(s[k - 1] == '\\' || s[k - 1] == '/')
        invariant
            k <= s@.len(),
            name_start(s@) == name_start(s@.subrange(0, k as int)),
        decreases k,
    {
        proof {
            assert(s@.subrange(0, k as int).drop_last() =~= s@.subrange(0, k - 1));
        }
        k = k - 1;
    }
    proof {
        if k == 0 {
            assert(s@.subrange(0, 0) =~= Seq::<char>::empty());
        }
        assert(name_start(s@) == k);
    }
    let mut out: Vec<char> = Vec::new();
    let mut i = k;
    while i < s.len()
        invariant
            k <= i <= s@.len(),
            out@ == s@.subrange(k as int, i as int),
        decreases s@.len() - i,
    {
        out.push(s[i]);
        i = i + 1;
        assert(out@ =~= s@.subrange(k as int, i as int));
    }
    out
}

/// The executable names of the preset with id `id` are `names`.
pub open spec fn preset_names(id: Seq<char>, names: Seq<String>) -> bool {
    exists|i: int|
        0 <= i < preset_table().len() && preset_table()[i].0 == id && names.len()
            == preset_table()[i].2.len() && forall|k: int|
            0 <= k < names.len() ==> (#[trigger] names[k])@ == preset_table()[i].2[k]
}

/// Preset ids are unique, so an id names at most one preset.
pub proof fn law_preset_ids_are_unique()
    ensures
        forall|i: int, j: int|
            0 <= i < j < preset_table().len() ==> preset_table()[i].0 != preset_table()[j].0,
        preset_table()[0].0 == "sayall"@,
{
    reveal_strlit("sayall");
    reveal_strlit("wechat");
    reveal_strlit("edge");
    reveal_strlit("chrome");
    reveal_strlit("notepad");
    reveal_strlit("calc");
    reveal_strlit("explorer");
    reveal_strlit("netease_music");
    let t = preset_table();
    assert forall|i: int, j: int| 0 <= i < j < t.len() implies t[i].0 != t[j].0 by {
        if t[i].0.len() == t[j].0.len() {
            assert(t[i].0[0] != t[j].0[0]);
        }
    }
}

/// What activating a target amounts to.
#[derive(Debug, Clone, PartialEq, Eq)]
pub enum ActivationPlan {
    /// SayAll itself: bring its window forward, else relaunch its own executable.
    ActivateSelf { exe_names: Vec<String> },
    /// A preset: bring a running window of one of these executables forward,
    /// else launch the first that starts.
    Preset { exe_names: Vec<String> },
    /// A custom executable: bring a running window of `exe_name` forward,
    /// else launch `path`.
    CustomExe { path: String, exe_name: String },
    /// A custom shortcut: resolve it, then activate or launch its target.
    CustomShortcut { path: String },
}

/// The error for a custom path that does not exist.
pub open spec fn missing_text(id: Seq<char>) -> Seq<char> {
    "应用不存在："@ + id
}

/// The error for an unknown target.
pub open spec fn unknown_text(id: Seq<char>) -> Seq<char> {
    "未知预设应用："@ + id
}

fn strings_of(v: &Vec<&'static str>) -> (r: Vec<String>)
    ensures
        r@.len() == v@.len(),
        forall|i: int| 0 <= i < r@.len() ==> (#[trigger] r@[i])@ == v@[i]@,
{
    let mut out: Vec<String> = Vec::new();
    let mut i: usize = 0;
    while i < v.len()
        invariant
            i <= v@.len(),
            out@.len() == i,
            forall|k: int| 0 <= k < i ==> (#[trigger] out@[k])@ == v@[k]@,
        decreases v@.len() - i,
    {
        out.push(String::from_str(v[i]));
        i = i + 1;
    }
    out
}

/// Decides how to activate the target `id` (a preset id or a custom path;
/// `path_exists` says whether that path exists): presets first, then custom
/// `.exe` or `.lnk` paths; anything else is an unknown target.
pub fn plan_activation(id: &str, path_exists: bool) -> (r: Result<ActivationPlan, String>)
    ensures
        (exists|i: int| 0 <= i < preset_table().len() && preset_table()[i].0 == id@) ==> match r {
            Ok(ActivationPlan::ActivateSelf { exe_names }) => id@ == "sayall"@ && preset_names(
                id@,
                exe_names@,
            ),
            Ok(ActivationPlan::Preset { exe_names }) => id@ != "sayall"@ && preset_names(
                id@,
                exe_names@,
            ),
            _ => false,
        },
        !(exists|i: int| 0 <= i < preset_table().len() && preset_table()[i].0 == id@) ==> {
            &&& custom_path_target(id@) && !path_exists ==> (r matches Err(e) && e@ == missing_text(
                id@,
            ))
            &&& custom_path_target(id@) && path_exists && seq_ends_with(lower_seq(id@), ".exe"@)
                ==> (r matches Ok(ActivationPlan::CustomExe { path, exe_name }) && path@ == id@
                && exe_name@ == file_name_of(id@))
            &&& custom_path_target(id@) && path_exists && !seq_ends_with(lower_seq(id@), ".exe"@)
                ==> (r matches Ok(ActivationPlan::CustomShortcut { path }) && path@ == id@)
            &&& !custom_path_target(id@) ==> (r matches Err(e) && e@ == unknown_text(id@))
        },
{
    match preset_app(id) {
        Some(a) => {
            let names = strings_of(&a.exe_names);
            if str_eq(a.id, "sayall") {
                return Ok(ActivationPlan::ActivateSelf { exe_names: names });
            }
            return Ok(ActivationPlan::Preset { exe_names: names });
        },
        None => {},
    }
    if !is_custom_path_target(id) {
        let mut e = String::from_str("未知预设应用：");
        push_str(&mut e, id);
        return Err(e);
    }
    if !path_exists {
        let mut e = String::from_str("应用不存在：");
        push_str(&mut e, id);
        return Err(e);
    }
    let cs = chars_of(id);
    let lower = lower_chars(cs.as_slice());
    let exe = chars_of(".exe");
    if ends_with_chars(lower.as_slice(), exe.as_slice()) {
        let name = file_name_chars(&cs);
        return Ok(ActivationPlan::CustomExe { path: string_of(cs.as_slice()), exe_name: string_of(name.as_slice()) });
    }
    Ok(ActivationPlan::CustomShortcut { path: string_of(cs.as_slice()) })
}

/// Opening applications needs the Windows shell; without it every target is
/// refused.
pub fn activate_or_launch(id: &str) -> (r: Result<(), String>)
    ensures
        r matches Err(e) && e@ == "打开应用仅在 Windows 上可用"@,
{
    Err(String::from_str("打开应用仅在 Windows 上可用"))
}

/// Without the Windows file dialog nothing can be picked.
pub fn pick_custom_app() -> (r: Option<CustomAppPick>)
    ensures
        r is None,
{
    None
}

} // verus!
