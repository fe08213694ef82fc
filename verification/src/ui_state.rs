//! State behind the input panel, the top panel and the file tree: the
//! rendering itself lives with the presentation layer, which hands the
//! decisions back as plain action values and keeps its selection state
//! here.

use vstd::prelude::*;
use vstd::string::StrSliceExecFns;

use crate::text::str_eq;

verus! {

/// What the input panel asks the application to do.
pub enum InputAction {
    Send,
    StopLoading,
    RequestScreenshot,
    ClearPendingImage,
    Idle,
}

/// What the top panel asks the application to do.
pub enum TopPanelAction {
    SwitchChannel(String),
    ClearChat,
    CopyLog,
    Idle,
}

/// Whether a directory entry is shown in the file tree: hidden files and
/// the build directory are not.
pub open spec fn entry_shown(name: Seq<char>) -> bool {
    name.len() > 0 && name[0] != '.' && name != "target"@
}

/// Whether a directory entry is shown in the file tree.
pub fn entry_visible(name: &str) -> (r: bool)
    ensures
        r == entry_shown(name@),
{
    let n = name.unicode_len();
    if n == 0 {
        return false;
    }
    if name.get_char(0) == '.' {
        return false;
    }
    if str_eq(name, "target") {
        return false;
    }
    true
}

/// Pairwise distinct values.
pub open spec fn distinct(s: Seq<Seq<char>>) -> bool {
    forall|i: int, j: int| 0 <= i < j < s.len() ==> (#[trigger] s[i]) != (#[trigger] s[j])
}

/// Pairwise distinct keys.
pub open spec fn distinct_keys(s: Seq<(Seq<char>, bool)>) -> bool {
    forall|i: int, j: int| 0 <= i < j < s.len() ==> (#[trigger] s[i]).0 != (#[trigger] s[j]).0
}

/// Appending a fresh value keeps the set of values and distinctness.
proof fn lemma_push_value(s: Seq<Seq<char>>, x: Seq<char>)
    requires
        distinct(s),
        !s.contains(x),
    ensures
        distinct(s.push(x)),
        s.push(x).to_set() == s.to_set().insert(x),
{
    let t = s.push(x);
    assert forall|i: int, j: int| 0 <= i < j < t.len() implies (#[trigger] t[i]) != (
    #[trigger] t[j]) by {
        if j < s.len() {
            assert(t[i] == s[i] && t[j] == s[j]);
        } else {
            assert(t[j] == x);
            assert(t[i] == s[i]);
            assert(!s.contains(x));
            assert(s[i] != x);
        }
    }
    assert forall|a: Seq<char>| t.to_set().contains(a) implies s.to_set().insert(x).contains(
        a,
    ) by {
        let i = choose|i: int| 0 <= i < t.len() && t[i] == a;
        if i < s.len() {
            assert(s[i] == a);
        }
    }
    assert forall|a: Seq<char>| s.to_set().insert(x).contains(a) implies t.to_set().contains(
        a,
    ) by {
        if a == x {
            assert(t[t.len() - 1] == a);
        } else {
            let i = choose|i: int| 0 <= i < s.len() && s[i] == a;
            assert(t[i] == a);
        }
    }
    assert(t.to_set() =~= s.to_set().insert(x));
}

/// Removing the value at `i` from a distinct list removes it from the set
/// of values and keeps distinctness.
proof fn lemma_remove_value(s: Seq<Seq<char>>, i: int)
    requires
        distinct(s),
        0 <= i < s.len(),
    ensures
        distinct(s.remove(i)),
        s.remove(i).to_set() == s.to_set().remove(s[i]),
{
    let t = s.remove(i);
    assert forall|p: int, q: int| 0 <= p < q < t.len() implies (#[trigger] t[p]) != (
    #[trigger] t[q]) by {
        let p2 = if p < i {
            p
        } else {
            p + 1
        };
        let q2 = if q < i {
            q
        } else {
            q + 1
        };
        assert(t[p] == s[p2] && t[q] == s[q2]);
    }
    assert forall|a: Seq<char>| t.to_set().contains(a) implies s.to_set().remove(s[i]).contains(
        a,
    ) by {
        let k = choose|k: int| 0 <= k < t.len() && t[k] == a;
        if k < i {
            assert(s[k] == a);
            assert(s[k] != s[i]);
        } else {
            assert(s[k + 1] == a);
            assert(s[k + 1] != s[i]);
        }
    }
    assert forall|a: Seq<char>| s.to_set().remove(s[i]).contains(a) implies t.to_set().contains(
        a,
    ) by {
        let k = choose|k: int| 0 <= k < s.len() && s[k] == a;
        assert(k != i);
        if k < i {
            assert(t[k] == a);
        } else {
            assert(t[k - 1] == a);
        }
    }
    assert(t.to_set() =~= s.to_set().remove(s[i]));
}

/// The first position of `p` in the path list, if it is there.
fn find_path(v: &Vec<String>, p: &str) -> (r: Option<usize>)
    ensures
        match r {
            Option::Some(i) => i < v@.len() && v@[i as int]@ == p@,
            Option::None => !v@.map_values(|s: String| s@).contains(p@),
        },
{
    let n = v.len();
    let mut i: usize = 0;
    while i < n
        invariant
            i <= n,
            n == v@.len(),
            forall|k: int| 0 <= k < i ==> (#[trigger] v@[k])@ != p@,
        decreases n - i,
    {
        if str_eq(v[i].as_str(), p) {
            return Option::Some(i);
        }
        i = i + 1;
    }
    proof {
        let vm = v@.map_values(|s: String| s@);
        if vm.contains(p@) {
            let w = choose|w: int| 0 <= w < vm.len() && vm[w] == p@;
            assert(v@[w]@ == p@);
            assert(false);
        }
    }
    Option::None
}

/// The first position of `p` among the mode keys, if it is there.
fn find_key(v: &Vec<(String, bool)>, p: &str) -> (r: Option<usize>)
    ensures
        match r {
            Option::Some(i) => {
                &&& i < v@.len()
                &&& v@[i as int].0@ == p@
                &&& forall|k: int| 0 <= k < i ==> (#[trigger] v@[k]).0@ != p@
            },
            Option::None => forall|k: int| 0 <= k < v@.len() ==> (#[trigger] v@[k]).0@ != p@,
        },
{
    let n = v.len();
    let mut i: usize = 0;
    while i < n
        invariant
            i <= n,
            n == v@.len(),
            forall|k: int| 0 <= k < i ==> (#[trigger] v@[k]).0@ != p@,
        decreases n - i,
    {
        if str_eq(v[i].0.as_str(), p) {
            return Option::Some(i);
        }
        i = i + 1;
    }
    Option::None
}

/// The mode recorded for a path: the first entry for it, or reference mode
/// where none is recorded.
pub open spec fn lookup_mode(s: Seq<(Seq<char>, bool)>, p: Seq<char>) -> bool
    decreases s.len(),
{
    if s.len() == 0 {
        false
    } else if s[0].0 == p {
        s[0].1
    } else {
        lookup_mode(s.drop_first(), p)
    }
}

/// Whether a mode is recorded for a path.
pub open spec fn has_mode(s: Seq<(Seq<char>, bool)>, p: Seq<char>) -> bool {
    exists|i: int| 0 <= i < s.len() && (#[trigger] s[i]).0 == p
}

/// Looking a path up passes over entries with other keys.
proof fn lemma_lookup_skip(s: Seq<(Seq<char>, bool)>, p: Seq<char>, i: int)
    requires
        0 <= i <= s.len(),
        forall|k: int| 0 <= k < i ==> (#[trigger] s[k]).0 != p,
    ensures
        lookup_mode(s, p) == lookup_mode(s.skip(i), p),
    decreases i,
{
    if i > 0 {
        assert(s[0].0 != p);
        assert(s.drop_first() =~= s.skip(1));
        lemma_lookup_skip(s.drop_first(), p, i - 1);
        assert(s.drop_first().skip(i - 1) =~= s.skip(i));
    } else {
        assert(s.skip(0) =~= s);
    }
}

/// The state behind the file-tree panel: the browsing root, the path-input
/// buffer, which files are selected for context ingestion, which folders
/// are unfolded, and each selected file's mode — `true` marks a target for
/// modification, `false` read-only reference context.
pub struct FileTreeState {
    pub root_path: String,
    pub input_path: String,
    pub selected_files: Vec<String>,
    pub expanded_paths: Vec<String>,
    pub selection_modes: Vec<(String, bool)>,
}

impl FileTreeState {
    /// The selected paths, in selection order.
    pub open spec fn selected(self) -> Seq<Seq<char>> {
        self.selected_files@.map_values(|s: String| s@)
    }

    /// The unfolded paths.
    pub open spec fn expanded(self) -> Seq<Seq<char>> {
        self.expanded_paths@.map_values(|s: String| s@)
    }

    /// The recorded modes.
    pub open spec fn modes(self) -> Seq<(Seq<char>, bool)> {
        self.selection_modes@.map_values(|e: (String, bool)| (e.0@, e.1))
    }

    /// The bookkeeping lists carry no duplicates: each path is selected at
    /// most once, unfolded at most once, and has at most one recorded
    /// mode.
    pub open spec fn wf(self) -> bool {
        &&& distinct(self.selected())
        &&& distinct(self.expanded())
        &&& distinct_keys(self.modes())
    }

    /// A fresh state browsing at `root_path`, with nothing selected and
    /// nothing unfolded.
    pub fn new(root_path: String, input_path: String) -> (s: FileTreeState)
        ensures
            s.wf(),
            s.root_path@ == root_path@,
            s.input_path@ == input_path@,
            s.selected() == Seq::<Seq<char>>::empty(),
            s.expanded() == Seq::<Seq<char>>::empty(),
            s.modes() == Seq::<(Seq<char>, bool)>::empty(),
    {
        let s = FileTreeState {
            root_path,
            input_path,
            selected_files: Vec::new(),
            expanded_paths: Vec::new(),
            selection_modes: Vec::new(),
        };
        proof {
            assert(s.selected() =~= Seq::<Seq<char>>::empty());
            assert(s.expanded() =~= Seq::<Seq<char>>::empty());
            assert(s.modes() =~= Seq::<(Seq<char>, bool)>::empty());
        }
        s
    }

    /// Moves the browsing root to the typed path: the selection is
    /// dropped, the unfolded folders are kept.
    pub fn set_root(&mut self, new_path: String)
        requires
            old(self).wf(),
        ensures
            final(self).wf(),
            final(self).root_path@ == new_path@,
            final(self).input_path == old(self).input_path,
            final(self).selected() == Seq::<Seq<char>>::empty(),
            final(self).expanded() == old(self).expanded(),
            final(self).modes() == old(self).modes(),
    {
        self.root_path = new_path;
        self.selected_files = Vec::new();
        proof {
            assert(self.selected() =~= Seq::<Seq<char>>::empty());
            assert(self.expanded() =~= old(self).expanded());
            assert(self.modes() =~= old(self).modes());
        }
    }

    /// Moves the browsing root to a folder picked in a dialog: the typed
    /// path follows it, and both the selection and the unfolded folders
    /// are dropped.
    pub fn choose_root(&mut self, folder: String)
        requires
            old(self).wf(),
        ensures
            final(self).wf(),
            final(self).root_path@ == folder@,
            final(self).input_path@ == folder@,
            final(self).selected() == Seq::<Seq<char>>::empty(),
            final(self).expanded() == Seq::<Seq<char>>::empty(),
            final(self).modes() == old(self).modes(),
    {
        self.input_path = folder.clone();
        self.root_path = folder;
        self.selected_files = Vec::new();
        self.expanded_paths = Vec::new();
        proof {
            assert(self.selected() =~= Seq::<Seq<char>>::empty());
            assert(self.expanded() =~= Seq::<Seq<char>>::empty());
            assert(self.modes() =~= old(self).modes());
        }
    }

    /// Whether a folder is unfolded.
    pub fn is_expanded(&self, p: &str) -> (r: bool)
        ensures
            r == self.expanded().contains(p@),
    {
        match find_path(&self.expanded_paths, p) {
            Option::Some(i) => {
                proof {
                    assert(self.expanded()[i as int] == p@);
                }
                true
            },
            Option::None => false,
        }
    }

    /// Folds an unfolded folder and unfolds a folded one.
    pub fn toggle_expanded(&mut self, p: &str)
        requires
            old(self).wf(),
        ensures
            final(self).wf(),
            final(self).expanded().to_set() == (if old(self).expanded().contains(p@) {
                old(self).expanded().to_set().remove(p@)
            } else {
                old(self).expanded().to_set().insert(p@)
            }),
            final(self).root_path == old(self).root_path,
            final(self).input_path == old(self).input_path,
            final(self).selected() == old(self).selected(),
            final(self).modes() == old(self).modes(),
    {
        match find_path(&self.expanded_paths, p) {
            Option::Some(i) => {
                self.expanded_paths.remove(i);
                proof {
                    assert(old(self).expanded()[i as int] == p@);
                    assert(self.expanded() =~= old(self).expanded().remove(i as int));
                    lemma_remove_value(old(self).expanded(), i as int);
                    assert(self.selected() =~= old(self).selected());
                    assert(self.modes() =~= old(self).modes());
                }
            },
            Option::None => {
                self.expanded_paths.push(p.to_owned());
                proof {
                    assert(self.expanded() =~= old(self).expanded().push(p@));
                    lemma_push_value(old(self).expanded(), p@);
                    assert(self.selected() =~= old(self).selected());
                    assert(self.modes() =~= old(self).modes());
                }
            },
        }
    }

    /// Whether a file is selected for context ingestion.
    pub fn is_selected(&self, p: &str) -> (r: bool)
        ensures
            r == self.selected().contains(p@),
    {
        match find_path(&self.selected_files, p) {
            Option::Some(i) => {
                proof {
                    assert(self.selected()[i as int] == p@);
                }
                true
            },
            Option::None => false,
        }
    }

    /// Selects a file; a newly selected file starts in reference mode.
    pub fn select_file(&mut self, p: &str)
        requires
            old(self).wf(),
        ensures
            final(self).wf(),
            final(self).selected().to_set() == old(self).selected().to_set().insert(p@),
            final(self).expanded() == old(self).expanded(),
            final(self).root_path == old(self).root_path,
            final(self).input_path == old(self).input_path,
            has_mode(final(self).modes(), p@),
            !has_mode(old(self).modes(), p@) ==> lookup_mode(final(self).modes(), p@) == false,
            has_mode(old(self).modes(), p@) ==> final(self).modes() == old(self).modes(),
            forall|q: Seq<char>|
                q != p@ ==> lookup_mode(final(self).modes(), q) == lookup_mode(
                    old(self).modes(),
                    q,
                ),
    {
        let ghost sel0 = self.selected();
        match find_path(&self.selected_files, p) {
            Option::Some(i) => {
                proof {
                    assert(sel0[i as int] == p@);
                    assert(sel0.to_set().contains(p@));
                    assert(sel0.to_set() =~= sel0.to_set().insert(p@));
                }
            },
            Option::None => {
                self.selected_files.push(p.to_owned());
                proof {
                    assert(self.selected() =~= sel0.push(p@));
                    lemma_push_value(sel0, p@);
                    assert(self.modes() =~= old(self).modes());
                    assert(self.expanded() =~= old(self).expanded());
                }
            },
        }
        let ghost m0 = self.modes();
        proof {
            assert(m0 =~= old(self).modes());
        }
        match find_key(&self.selection_modes, p) {
            Option::Some(i) => {
                proof {
                    assert(m0[i as int].0 == p@);
                    assert(self.expanded() =~= old(self).expanded());
                }
            },
            Option::None => {
                proof {
                    assert(forall|k: int| 0 <= k < m0.len() ==> (#[trigger] m0[k]).0 != p@);
                }
                self.selection_modes.push((p.to_owned(), false));
                proof {
                    let m = self.modes();
                    assert(m =~= m0.push((p@, false)));
                    assert(m[m.len() - 1].0 == p@);
                    assert forall|q: Seq<char>| q != p@ implies lookup_mode(m, q) == lookup_mode(
                        m0,
                        q,
                    ) by {
                        lemma_lookup_append_other(m0, (p@, false), q);
                    }
                    lemma_lookup_skip(m, p@, m.len() - 1);
                    assert(m.skip(m.len() - 1) =~= seq![(p@, false)]);
                    assert forall|i2: int, j2: int| 0 <= i2 < j2 < m.len() implies (
                    #[trigger] m[i2]).0 != (#[trigger] m[j2]).0 by {
                        if j2 < m.len() - 1 {
                            assert(m[i2] == m0[i2] && m[j2] == m0[j2]);
                        } else {
                            assert(m[i2] == m0[i2]);
                            assert(m[j2].0 == p@);
                        }
                    }
                    assert(self.expanded() =~= old(self).expanded());
                }
            },
        }
    }

    /// Deselects a file, forgetting its mode.
    pub fn deselect_file(&mut self, p: &str)
        requires
            old(self).wf(),
        ensures
            final(self).wf(),
            final(self).selected().to_set() == old(self).selected().to_set().remove(p@),
            !has_mode(final(self).modes(), p@),
            final(self).expanded() == old(self).expanded(),
            final(self).root_path == old(self).root_path,
            final(self).input_path == old(self).input_path,
    {
        let ghost sel0 = self.selected();
        match find_path(&self.selected_files, p) {
            Option::Some(i) => {
                self.selected_files.remove(i);
                proof {
                    assert(sel0[i as int] == p@);
                    assert(self.selected() =~= sel0.remove(i as int));
                    lemma_remove_value(sel0, i as int);
                    assert(self.expanded() =~= old(self).expanded());
                    assert(self.modes() =~= old(self).modes());
                }
            },
            Option::None => {
                proof {
                    assert(!sel0.to_set().contains(p@));
                    assert(self.selected().to_set() =~= sel0.to_set().remove(p@));
                }
            },
        }
        let ghost m0 = self.modes();
        proof {
            assert(m0 =~= old(self).modes());
        }
        match find_key(&self.selection_modes, p) {
            Option::Some(i) => {
                self.selection_modes.remove(i);
                proof {
                    let m = self.modes();
                    assert(m =~= m0.remove(i as int));
                    assert(m0[i as int].0 == p@);
                    assert forall|i2: int, j2: int| 0 <= i2 < j2 < m.len() implies (
                    #[trigger] m[i2]).0 != (#[trigger] m[j2]).0 by {
                        let i3 = if i2 < i {
                            i2
                        } else {
                            i2 + 1
                        };
                        let j3 = if j2 < i {
                            j2
                        } else {
                            j2 + 1
                        };
                        assert(m[i2] == m0[i3] && m[j2] == m0[j3]);
                    }
                    assert forall|k: int| 0 <= k < m.len() implies (#[trigger] m[k]).0 != p@ by {
                        if k < i {
                            assert(m[k] == m0[k]);
                        } else {
                            assert(m[k] == m0[k + 1]);
                        }
                    }
                    assert(self.selected() == final(self).selected());
                }
            },
            Option::None => {
                proof {
                    assert(forall|k: int|
                        0 <= k < self.modes().len() ==> (#[trigger] self.modes()[k]).0 != p@);
                }
            },
        }
    }

    /// The recorded mode of a file: `true` for a modification target,
    /// `false` for reference context.
    pub fn mode_of(&self, p: &str) -> (r: bool)
        ensures
            r == lookup_mode(self.modes(), p@),
    {
        match find_key(&self.selection_modes, p) {
            Option::Some(i) => {
                proof {
                    lemma_lookup_skip(self.modes(), p@, i as int);
                    assert(self.modes().skip(i as int)[0] == self.modes()[i as int]);
                }
                self.selection_modes[i].1
            },
            Option::None => {
                proof {
                    lemma_lookup_skip(self.modes(), p@, self.modes().len() as int);
                    assert(self.modes().skip(self.modes().len() as int) =~= Seq::<(
                        Seq<char>,
                        bool,
                    )>::empty());
                }
                false
            },
        }
    }

    /// Flips a file's mode between modification target and reference.
    pub fn toggle_mode(&mut self, p: &str)
        requires
            old(self).wf(),
        ensures
            final(self).wf(),
            lookup_mode(final(self).modes(), p@) == !lookup_mode(old(self).modes(), p@),
            final(self).selected() == old(self).selected(),
            final(self).expanded() == old(self).expanded(),
            final(self).root_path == old(self).root_path,
            final(self).input_path == old(self).input_path,
    {
        let flipped = !self.mode_of(p);
        let ghost m0 = self.modes();
        match find_key(&self.selection_modes, p) {
            Option::Some(i) => {
                self.selection_modes.set(i, (p.to_owned(), flipped));
                proof {
                    let m = self.modes();
                    assert(m =~= m0.update(i as int, (p@, flipped)));
                    assert(forall|k: int| 0 <= k < i ==> (#[trigger] m[k]) == m0[k]);
                    lemma_lookup_skip(m, p@, i as int);
                    assert(m.skip(i as int)[0] == m[i as int]);
                    lemma_lookup_skip(m0, p@, i as int);
                    assert(m0.skip(i as int)[0] == m0[i as int]);
                    assert forall|i2: int, j2: int| 0 <= i2 < j2 < m.len() implies (
                    #[trigger] m[i2]).0 != (#[trigger] m[j2]).0 by {
                        assert(m0[i2].0 != m0[j2].0);
                        assert(m[i2].0 == m0[i2].0 && m[j2].0 == m0[j2].0);
                    }
                    assert(self.selected() =~= old(self).selected());
                    assert(self.expanded() =~= old(self).expanded());
                }
            },
            Option::None => {
                self.selection_modes.push((p.to_owned(), flipped));
                proof {
                    let m = self.modes();
                    assert(m =~= m0.push((p@, flipped)));
                    assert(forall|k: int| 0 <= k < m0.len() ==> (#[trigger] m0[k]).0 != p@);
                    lemma_lookup_skip(m0, p@, m0.len() as int);
                    assert(m0.skip(m0.len() as int) =~= Seq::<(Seq<char>, bool)>::empty());
                    lemma_lookup_skip(m, p@, m.len() - 1);
                    assert(m.skip(m.len() - 1) =~= seq![(p@, flipped)]);
                    assert forall|i2: int, j2: int| 0 <= i2 < j2 < m.len() implies (
                    #[trigger] m[i2]).0 != (#[trigger] m[j2]).0 by {
                        if j2 < m.len() - 1 {
                            assert(m[i2] == m0[i2] && m[j2] == m0[j2]);
                        } else {
                            assert(m[i2] == m0[i2]);
                            assert(m[j2].0 == p@);
                        }
                    }
                    assert(self.selected() =~= old(self).selected());
                    assert(self.expanded() =~= old(self).expanded());
                }
            },
        }
    }
}

/// One directory entry of the file-tree listing.
#[derive(Debug)]
pub struct DirEntry {
    pub name: String,
    pub is_dir: bool,
}

/// The mathematical shape of a directory entry.
pub ghost struct DirEntryModel {
    pub name: Seq<char>,
    pub is_dir: bool,
}

impl View for DirEntry {
    type V = DirEntryModel;

    open spec fn view(&self) -> DirEntryModel {
        DirEntryModel { name: self.name@, is_dir: self.is_dir }
    }
}

/// Code-point order on names: the order a directory listing sorts by.
pub open spec fn chars_le(a: Seq<char>, b: Seq<char>) -> bool
    decreases a.len(),
{
    if a.len() == 0 {
        true
    } else if b.len() == 0 {
        false
    } else if a[0] != b[0] {
        a[0] < b[0]
    } else {
        chars_le(a.drop_first(), b.drop_first())
    }
}

/// Any two names are comparable.
proof fn lemma_chars_le_total(a: Seq<char>, b: Seq<char>)
    ensures
        chars_le(a, b) || chars_le(b, a),
    decreases a.len(),
{
    if a.len() > 0 && b.len() > 0 && a[0] == b[0] {
        lemma_chars_le_total(a.drop_first(), b.drop_first());
    }
}

/// The name order is transitive.
proof fn lemma_chars_le_trans(a: Seq<char>, b: Seq<char>, c: Seq<char>)
    requires
        chars_le(a, b),
        chars_le(b, c),
    ensures
        chars_le(a, c),
    decreases a.len(),
{
    if a.len() > 0 && b.len() > 0 && c.len() > 0 && a[0] == b[0] && b[0] == c[0] {
        lemma_chars_le_trans(a.drop_first(), b.drop_first(), c.drop_first());
    }
}

/// Compares two names in code-point order.
fn chars_le_exec(a: &str, b: &str) -> (r: bool)
    ensures
        r == chars_le(a@, b@),
{
    let an = a.unicode_len();
    let bn = b.unicode_len();
    let mut i: usize = 0;
    proof {
        assert(a@.skip(0) =~= a@);
        assert(b@.skip(0) =~= b@);
    }
    loop
        invariant
            i <= an,
            i <= bn,
            an == a@.len(),
            bn == b@.len(),
            chars_le(a@, b@) == chars_le(a@.skip(i as int), b@.skip(i as int)),
        decreases an - i,
    {
        if i >= an {
            proof {
                assert(a@.skip(i as int).len() == 0);
            }
            return true;
        }
        if i >= bn {
            proof {
                assert(b@.skip(i as int).len() == 0);
                assert(a@.skip(i as int).len() > 0);
            }
            return false;
        }
        let ca = a.get_char(i);
        let cb = b.get_char(i);
        proof {
            assert(a@.skip(i as int)[0] == a@[i as int]);
            assert(b@.skip(i as int)[0] == b@[i as int]);
        }
        if ca != cb {
            return ca < cb;
        }
        proof {
            assert(a@.skip(i as int).drop_first() =~= a@.skip(i as int + 1));
            assert(b@.skip(i as int).drop_first() =~= b@.skip(i as int + 1));
        }
        i = i + 1;
    }
}

/// The listing order: folders come before files, and names sort in
/// code-point order within each group.
pub open spec fn entry_le(x: DirEntryModel, y: DirEntryModel) -> bool {
    if x.is_dir != y.is_dir {
        x.is_dir
    } else {
        chars_le(x.name, y.name)
    }
}

/// Compares two entries in listing order.
fn entry_le_exec(x: &DirEntry, y: &DirEntry) -> (r: bool)
    ensures
        r == entry_le(x@, y@),
{
    if x.is_dir != y.is_dir {
        x.is_dir
    } else {
        chars_le_exec(x.name.as_str(), y.name.as_str())
    }
}

/// Whether a listing stands in listing order.
pub open spec fn entries_sorted(s: Seq<DirEntryModel>) -> bool {
    forall|i: int, j: int| 0 <= i < j < s.len() ==> entry_le(#[trigger] s[i], #[trigger] s[j])
}

/// Inserting an element anywhere adds it to the multiset of elements.
proof fn lemma_insert_multiset(s: Seq<DirEntryModel>, i: int, x: DirEntryModel)
    requires
        0 <= i <= s.len(),
    ensures
        s.insert(i, x).to_multiset() == s.to_multiset().insert(x),
{
    broadcast use vstd::seq_lib::group_to_multiset_ensures;

    let t = s.insert(i, x);
    assert(t.remove(i) =~= s);
    assert(t[i] == x);
    assert(t.remove(i).to_multiset() =~= t.to_multiset().remove(x));
    assert(t.contains(x));
    assert(t.to_multiset().count(x) > 0);
    assert forall|a: DirEntryModel| true implies #[trigger] t.to_multiset().count(a) == s.to_multiset()
        .insert(x).count(a) by {
        if a == x {
            assert(s.to_multiset().count(x) == t.to_multiset().count(x) - 1);
        } else {
            assert(s.to_multiset().count(a) == t.to_multiset().count(a));
        }
    }
    assert(t.to_multiset() =~= s.to_multiset().insert(x));
}

/// Sorts a directory listing: folders first, names in code-point order,
/// keeping exactly the given entries.
pub fn sort_entries(entries: Vec<DirEntry>) -> (r: Vec<DirEntry>)
    ensures
        entries_sorted(r@.map_values(|e: DirEntry| e@)),
        r@.map_values(|e: DirEntry| e@).to_multiset() == entries@.map_values(
            |e: DirEntry| e@,
        ).to_multiset(),
{
    broadcast use vstd::seq_lib::group_to_multiset_ensures;

    let ghost em = entries@.map_values(|e: DirEntry| e@);
    let mut rest = entries;
    let mut r: Vec<DirEntry> = Vec::new();
    let n: usize = rest.len();
    let mut i: usize = 0;
    proof {
        assert(em.subrange(0, 0) =~= Seq::<DirEntryModel>::empty());
        assert(r@.map_values(|e: DirEntry| e@) =~= Seq::<DirEntryModel>::empty());
        assert(Seq::<DirEntryModel>::empty().to_multiset() =~= em.subrange(0, 0).to_multiset());
    }
    while i < n
        invariant
            i <= n,
            n == em.len(),
            rest@.len() == n - i,
            forall|k: int| 0 <= k < rest@.len() ==> (#[trigger] rest@[k])@ == em[i + k],
            entries_sorted(r@.map_values(|e: DirEntry| e@)),
            r@.map_values(|e: DirEntry| e@).to_multiset() == em.subrange(0, i as int).to_multiset(),
        decreases n - i,
    {
        let e = rest.remove(0);
        let ghost rm = r@.map_values(|x: DirEntry| x@);
        let mut j: usize = 0;
        while j < r.len() && entry_le_exec(&r[j], &e)
            invariant
                j <= r@.len(),
                forall|k: int| 0 <= k < j ==> entry_le(#[trigger] rm[k], e@),
                r@.map_values(|x: DirEntry| x@) == rm,
            decreases r@.len() - j,
        {
            j = j + 1;
        }
        proof {
            if (j as int) < rm.len() {
                assert(!entry_le(rm[j as int], e@));
                lemma_chars_le_total(rm[j as int].name, e@.name);
                assert(entry_le(e@, rm[j as int]));
            }
        }
        r.insert(j, e);
        proof {
            let rm1 = r@.map_values(|x: DirEntry| x@);
            assert(rm1 =~= rm.insert(j as int, em[i as int]));
            lemma_insert_multiset(rm, j as int, em[i as int]);
            assert(em.subrange(0, i as int + 1).drop_last() =~= em.subrange(0, i as int));
            assert(em.subrange(0, i as int + 1).last() == em[i as int]);
            assert(em.subrange(0, i as int + 1) =~= em.subrange(0, i as int).push(em[i as int]));
            assert(em.subrange(0, i as int + 1).to_multiset() =~= em.subrange(
                0,
                i as int,
            ).to_multiset().insert(em[i as int]));
            assert forall|p: int, q: int| 0 <= p < q < rm1.len() implies entry_le(
                #[trigger] rm1[p],
                #[trigger] rm1[q],
            ) by {
                if q < j {
                    assert(rm1[p] == rm[p] && rm1[q] == rm[q]);
                } else if p < j && q == j {
                    assert(rm1[p] == rm[p]);
                    assert(entry_le(rm[p], e@));
                } else if p < j {
                    assert(rm1[p] == rm[p] && rm1[q] == rm[q - 1]);
                } else if p == j {
                    assert(rm1[q] == rm[q - 1]);
                    assert(entry_le(e@, rm[j as int]));
                    assert(entry_le(rm[j as int], rm[q - 1]) || j as int == q - 1);
                    if j as int != q - 1 {
                        if e@.is_dir == rm[j as int].is_dir && rm[j as int].is_dir == rm[q
                            - 1].is_dir {
                            lemma_chars_le_trans(e@.name, rm[j as int].name, rm[q - 1].name);
                        }
                    }
                } else {
                    assert(rm1[p] == rm[p - 1] && rm1[q] == rm[q - 1]);
                }
            }
        }
        i = i + 1;
    }
    proof {
        assert(em.subrange(0, n as int) =~= em);
    }
    r
}

/// Whether a file extension marks a binary asset: such a file is ingested
/// by path only, never by content.
pub open spec fn binary_asset_ext(e: Seq<char>) -> bool {
    ||| e == "glb"@
    ||| e == "gltf"@
    ||| e == "png"@
    ||| e == "jpg"@
    ||| e == "jpeg"@
    ||| e == "wav"@
    ||| e == "ogg"@
    ||| e == "mp3"@
}

/// Whether a file extension marks a binary asset.
pub fn is_binary_asset_ext(ext: &str) -> (r: bool)
    ensures
        r == binary_asset_ext(ext@),
{
    str_eq(ext, "glb") || str_eq(ext, "gltf") || str_eq(ext, "png") || str_eq(ext, "jpg")
        || str_eq(ext, "jpeg") || str_eq(ext, "wav") || str_eq(ext, "ogg") || str_eq(ext, "mp3")
}

/// The ingestion entry for a binary asset: its path and the instruction to
/// spawn it through the upload tool.
pub open spec fn binary_entry_model(path: Seq<char>) -> Seq<char> {
    "`"@ + path
        + "`: [BINARY ASSET AVAILABLE]. To spawn this in Bevy, you MUST use the 'bevy_upload_asset' tool with this 'local_path'.\n"@
}

/// Renders the ingestion entry for a binary asset.
pub fn render_binary_entry(path: &str) -> (r: String)
    ensures
        r@ == binary_entry_model(path@),
{
    let mut s = "`".to_owned();
    s.append(path);
    s.append(
        "`: [BINARY ASSET AVAILABLE]. To spawn this in Bevy, you MUST use the 'bevy_upload_asset' tool with this 'local_path'.\n",
    );
    proof {
        assert(s@ =~= binary_entry_model(path@));
    }
    s
}

/// The ingestion entry for a text file: its path and its content in a
/// fenced block.
pub open spec fn text_entry_model(path: Seq<char>, content: Seq<char>) -> Seq<char> {
    "`"@ + path + "`:\n```rust\n"@ + content + "\n```\n"@
}

/// Renders the ingestion entry for a text file.
pub fn render_text_entry(path: &str, content: &str) -> (r: String)
    ensures
        r@ == text_entry_model(path@, content@),
{
    let mut s = "`".to_owned();
    s.append(path);
    s.append("`:\n```rust\n");
    s.append(content);
    s.append("\n```\n");
    proof {
        assert(s@ =~= text_entry_model(path@, content@));
    }
    s
}

/// The entries of one section, each followed by a blank line.
pub open spec fn joined_entries(es: Seq<Seq<char>>) -> Seq<char>
    decreases es.len(),
{
    if es.len() == 0 {
        Seq::empty()
    } else {
        joined_entries(es.drop_last()) + es.last() + "\n"@
    }
}

/// The whole context-ingestion prompt: the targets to modify, then the
/// read-only references, then the instruction tying them together.
pub open spec fn ingestion_prompt(targets: Seq<Seq<char>>, references: Seq<Seq<char>>) -> Seq<
    char,
> {
    "## 📂 Active Context Ingestion\n\n"@ + (if targets.len() > 0 {
        "### ✏️ TARGETS (Please Modify these):\n"@ + joined_entries(targets)
    } else {
        Seq::empty()
    }) + (if references.len() > 0 {
        "### 📖 REFERENCES (Read-Only Context):\n"@ + joined_entries(references)
    } else {
        Seq::empty()
    })
        + "\n**INSTRUCTION**: Use the Reference files to guide your changes to the Target files."@
}

/// Appends one section's entries, each followed by a blank line.
fn append_joined(s: &mut String, entries: &Vec<String>)
    ensures
        final(s)@ == old(s)@ + joined_entries(entries@.map_values(|e: String| e@)),
{
    let ghost em = entries@.map_values(|e: String| e@);
    let n = entries.len();
    let mut i: usize = 0;
    proof {
        assert(em.subrange(0, 0) =~= Seq::<Seq<char>>::empty());
        assert(s@ =~= old(s)@ + joined_entries(em.subrange(0, 0)));
    }
    while i < n
        invariant
            i <= n,
            n == em.len(),
            em == entries@.map_values(|e: String| e@),
            s@ == old(s)@ + joined_entries(em.subrange(0, i as int)),
        decreases n - i,
    {
        s.append(entries[i].as_str());
        s.append("\n");
        proof {
            assert(em.subrange(0, i as int + 1).drop_last() =~= em.subrange(0, i as int));
            assert(em.subrange(0, i as int + 1).last() == em[i as int]);
            assert(s@ =~= old(s)@ + joined_entries(em.subrange(0, i as int + 1)));
        }
        i = i + 1;
    }
    proof {
        assert(em.subrange(0, n as int) =~= em);
    }
}

/// Builds the context-ingestion prompt from the rendered target and
/// reference entries.
pub fn build_ingestion_prompt(targets: &Vec<String>, references: &Vec<String>) -> (r: String)
    ensures
        r@ == ingestion_prompt(
            targets@.map_values(|e: String| e@),
            references@.map_values(|e: String| e@),
        ),
{
    let mut s = "## 📂 Active Context Ingestion\n\n".to_owned();
    if targets.len() > 0 {
        s.append("### ✏️ TARGETS (Please Modify these):\n");
        append_joined(&mut s, targets);
    }
    if references.len() > 0 {
        s.append("### 📖 REFERENCES (Read-Only Context):\n");
        append_joined(&mut s, references);
    }
    s.append("\n**INSTRUCTION**: Use the Reference files to guide your changes to the Target files.");
    proof {
        assert(s@ =~= ingestion_prompt(
            targets@.map_values(|e: String| e@),
            references@.map_values(|e: String| e@),
        ));
    }
    s
}

/// An appended entry with another key leaves every other path's lookup
/// unchanged.
proof fn lemma_lookup_append_other(s: Seq<(Seq<char>, bool)>, e: (Seq<char>, bool), q: Seq<char>)
    requires
        e.0 != q,
    ensures
        lookup_mode(s.push(e), q) == lookup_mode(s, q),
    decreases s.len(),
{
    let t = s.push(e);
    if s.len() == 0 {
        assert(t[0] == e);
        assert(lookup_mode(t, q) == lookup_mode(t.drop_first(), q));
        assert(t.drop_first() =~= Seq::<(Seq<char>, bool)>::empty());
        assert(t.drop_first().len() == 0);
        assert(lookup_mode(t.drop_first(), q) == false);
        assert(lookup_mode(s, q) == false);
    } else {
        assert(t[0] == s[0]);
        if t[0].0 == q {
            assert(s[0].0 == q);
            assert(lookup_mode(t, q) == t[0].1);
            assert(lookup_mode(s, q) == s[0].1);
        } else {
            assert(t.drop_first() =~= s.drop_first().push(e));
            lemma_lookup_append_other(s.drop_first(), e, q);
            assert(lookup_mode(t, q) == lookup_mode(t.drop_first(), q));
            assert(lookup_mode(s, q) == lookup_mode(s.drop_first(), q));
        }
    }
}

} // verus!
