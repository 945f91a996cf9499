//! The path filter and the tree enumerator.
use vstd::prelude::*;
use vstd::string::StringExecFns;

use crate::extensions::{classify_spec, Extension};
use crate::pattern::{regex_compiles, regex_finds, ConfigError, IgnorePattern};
use crate::text::{str_eq, views};

verus! {

broadcast use {
    vstd::seq::axiom_seq_index_decreases,
    vstd::seq::axiom_seq_subrange_decreases,
    vstd::std_specs::vec::axiom_vec_decreases_to_view,
    vstd::std_specs::vec::axiom_vec_index_decreases,
};

/// One entry of a directory listing: a file, or a directory with the listing
/// of its own entries. Names are base filenames, without `/`.
#[derive(Debug)]
pub enum Entry {
    File(String),
    Dir(String, Vec<Entry>),
}

/// `name` appended to the directory path `dir`, with one `/` between them.
pub open spec fn join_spec(dir: Seq<char>, name: Seq<char>) -> Seq<char> {
    if dir.len() == 0 {
        name
    } else if dir.last() == '/' {
        dir + name
    } else {
        dir + seq!['/'] + name
    }
}

/// `name` appended to the directory path `dir`.
pub fn join(dir: &str, name: &str) -> (r: String)
    ensures
        r@ == join_spec(dir@, name@),
{
    let n = dir.unicode_len();
    if n == 0 {
        String::from_str(name)
    } else if dir.get_char(n - 1) == '/' {
        String::from_str(dir).concat(name)
    } else {
        proof {
            reveal_strlit("/");
        }
        let r = String::from_str(dir).concat("/").concat(name);
        assert(r@ =~= dir@ + seq!['/'] + name@);
        r
    }
}

/// Whether `e` matches one of `kinds`.
pub open spec fn any_kind(kinds: Seq<Extension>, name: Seq<char>) -> bool {
    exists|i: int| 0 <= i < kinds.len() && kinds[i] == classify_spec(name)
}

/// Whether one of `patterns` matches somewhere in `name`.
pub open spec fn any_pattern(patterns: Seq<Seq<char>>, name: Seq<char>) -> bool {
    exists|i: int| 0 <= i < patterns.len() && regex_finds(patterns[i], name)
}

/// The sources of a sequence of patterns.
pub open spec fn sources(ps: Seq<IgnorePattern>) -> Seq<Seq<char>> {
    ps.map_values(|p: IgnorePattern| p.source())
}

/// Collects the rules of a `FileSearcher`.
pub struct FileSearcherBuilder {
    root: String,
    target_extension: Vec<Extension>,
    ignore_re: Vec<IgnorePattern>,
    ignore_filenames: Vec<String>,
    ignore_extension: Vec<Extension>,
}

/// Decides, by base filename, which entries of a tree are skipped and which
/// files are reported, and walks a tree with those rules.
pub struct FileSearcher {
    root: String,
    target_extensions: Vec<Extension>,
    ignore_re: Vec<IgnorePattern>,
    ignore_filenames: Vec<String>,
    ignore_extension: Vec<Extension>,
}

impl FileSearcher {
    /// The directory that a scan starts from.
    pub closed spec fn spec_root(&self) -> Seq<char> {
        self.root@
    }

    /// The allow-list of extensions; empty allows all.
    pub closed spec fn targets(&self) -> Seq<Extension> {
        self.target_extensions@
    }

    /// The excluded extensions.
    pub closed spec fn ignored_extensions(&self) -> Seq<Extension> {
        self.ignore_extension@
    }

    /// The excluded base filenames.
    pub closed spec fn ignored_filenames(&self) -> Seq<Seq<char>> {
        views(self.ignore_filenames@)
    }

    /// The sources of the excluded patterns.
    pub closed spec fn ignored_patterns(&self) -> Seq<Seq<char>> {
        sources(self.ignore_re@)
    }

    /// An entry is excluded iff its extension is excluded, its name is
    /// excluded, or an excluded pattern matches somewhere in its name.
    pub open spec fn spec_is_ignore(&self, name: Seq<char>) -> bool {
        ||| any_kind(self.ignored_extensions(), name)
        ||| self.ignored_filenames().contains(name)
        ||| any_pattern(self.ignored_patterns(), name)
    }

    /// A file passes the allow-list iff the list is empty or holds its kind.
    pub open spec fn spec_is_target(&self, name: Seq<char>) -> bool {
        self.targets().len() == 0 || any_kind(self.targets(), name)
    }

    /// A file is reported iff it is not excluded and passes the allow-list.
    pub open spec fn spec_should_report(&self, name: Seq<char>) -> bool {
        !self.spec_is_ignore(name) && self.spec_is_target(name)
    }

    /// The paths that a scan of the listing `es` of directory `dir` reports,
    /// in listing order, each directory's files where the directory stands.
    pub open spec fn scan_spec(&self, dir: Seq<char>, es: Seq<Entry>) -> Seq<Seq<char>>
        decreases es,
    {
        if es.len() == 0 {
            Seq::empty()
        } else {
            let init = es.subrange(0, es.len() - 1);
            let last = es[es.len() - 1];
            self.scan_spec(dir, init) + match last {
                Entry::File(name) => if self.spec_should_report(name@) {
                    seq![join_spec(dir, name@)]
                } else {
                    Seq::empty()
                },
                Entry::Dir(name, kids) => if self.spec_is_ignore(name@) {
                    Seq::empty()
                } else {
                    self.scan_spec(join_spec(dir, name@), kids@)
                },
            }
        }
    }

    /// Whether one of `kinds` is the kind of `name`.
    fn any_kind_of(kinds: &Vec<Extension>, name: &str) -> (r: bool)
        ensures
            r == any_kind(kinds@, name@),
    {
        let kind = Extension::classify(name);
        let mut i: usize = 0;
        while i < kinds.len()
            invariant
                i <= kinds@.len(),
                kind == classify_spec(name@),
                forall|j: int| 0 <= j < i ==> kinds@[j] != kind,
            decreases kinds@.len() - i,
        {
            if kinds[i] == kind {
                return true;
            }
            i = i + 1;
        }
        false
    }

    fn is_ignore_extension(&self, name: &str) -> (r: bool)
        ensures
            r == any_kind(self.ignored_extensions(), name@),
    {
        FileSearcher::any_kind_of(&self.ignore_extension, name)
    }

    fn is_ignore_filename(&self, name: &str) -> (r: bool)
        ensures
            r == self.ignored_filenames().contains(name@),
    {
        let mut i: usize = 0;
        while i < self.ignore_filenames.len()
            invariant
                i <= self.ignore_filenames@.len(),
                forall|j: int| 0 <= j < i ==> self.ignore_filenames@[j]@ != name@,
            decreases self.ignore_filenames@.len() - i,
        {
            if str_eq(self.ignore_filenames[i].as_str(), name) {
                assert(self.ignored_filenames()[i as int] == name@);
                return true;
            }
            i = i + 1;
        }
        proof {
            if self.ignored_filenames().contains(name@) {
                let j = choose|j: int|
                    0 <= j < self.ignored_filenames().len() && self.ignored_filenames()[j] == name@;
                assert(self.ignore_filenames@[j]@ == name@);
            }
        }
        false
    }

    fn is_ignore_re(&self, name: &str) -> (r: bool)
        ensures
            r == any_pattern(self.ignored_patterns(), name@),
    {
        let mut i: usize = 0;
        while i < self.ignore_re.len()
            invariant
                i <= self.ignore_re@.len(),
                forall|j: int| 0 <= j < i ==> !regex_finds(self.ignored_patterns()[j], name@),
            decreases self.ignore_re@.len() - i,
        {
            if self.ignore_re[i].is_match(name) {
                assert(self.ignored_patterns()[i as int] == self.ignore_re@[i as int].source());
                return true;
            }
            i = i + 1;
        }
        false
    }

    /// Whether an entry named `name` is excluded: neither reported nor
    /// descended into.
    pub fn is_ignore(&self, name: &str) -> (r: bool)
        ensures
            r == self.spec_is_ignore(name@),
    {
        self.is_ignore_extension(name) || self.is_ignore_filename(name) || self.is_ignore_re(name)
    }

    /// Whether a file named `name` passes the allow-list.
    pub fn is_target(&self, name: &str) -> (r: bool)
        ensures
            r == self.spec_is_target(name@),
    {
        self.target_extensions.len() == 0 || FileSearcher::any_kind_of(
            &self.target_extensions,
            name,
        )
    }

    /// Whether a directory named `name` is descended into.
    pub fn should_recurse(&self, name: &str) -> (r: bool)
        ensures
            r == !self.spec_is_ignore(name@),
    {
        !self.is_ignore(name)
    }

    /// Whether a file named `name` is reported.
    pub fn should_report(&self, name: &str) -> (r: bool)
        ensures
            r == self.spec_should_report(name@),
    {
        !self.is_ignore(name) && self.is_target(name)
    }

    /// The directory that a scan starts from.
    pub fn root(&self) -> (r: &str)
        ensures
            r@ == self.spec_root(),
    {
        self.root.as_str()
    }

    fn scan_into(&self, dir: &str, es: &Vec<Entry>, out: &mut Vec<String>)
        ensures
            views(final(out)@) == views(old(out)@) + self.scan_spec(dir@, es@),
        decreases es,
    {
        let mut i: usize = 0;
        assert(es@.subrange(0, 0) =~= Seq::<Entry>::empty());
        assert(views(out@) =~= views(old(out)@) + Seq::<Seq<char>>::empty());
        while i < es.len()
            invariant
                i <= es@.len(),
                views(out@) == views(old(out)@) + self.scan_spec(dir@, es@.subrange(0, i as int)),
            decreases es@.len() - i,
        {
            let ghost before = views(out@);
            let ghost prefix = es@.subrange(0, i + 1);
            assert(prefix.subrange(0, i as int) =~= es@.subrange(0, i as int));
            assert(prefix[i as int] == es@[i as int]);
            match &es[i] {
                Entry::File(name) => {
                    if self.should_report(name.as_str()) {
                        let path = join(dir, name.as_str());
                        out.push(path);
                        assert(views(out@) =~= before.push(path@));
                    }
                },
                Entry::Dir(name, kids) => {
                    if !self.is_ignore(name.as_str()) {
                        let path = join(dir, name.as_str());
                        assert(decreases_to!(es => es@[i as int]));
                        self.scan_into(path.as_str(), kids, out);
                    }
                },
            }
            assert(views(out@) =~= views(old(out)@) + self.scan_spec(dir@, prefix));
            i = i + 1;
        }
        assert(es@.subrange(0, es@.len() as int) =~= es@);
    }

    /// The paths of the files that the rules report in `listing`, the listing
    /// of the root directory, each as the root joined with the names on the
    /// way down.
    pub fn get_all_filenames(&self, listing: &Vec<Entry>) -> (r: Vec<String>)
        ensures
            views(r@) == self.scan_spec(self.spec_root(), listing@),
            wf_listing(listing@) ==> views(r@).no_duplicates(),
    {
        let mut out: Vec<String> = Vec::new();
        self.scan_into(self.root.as_str(), listing, &mut out);
        proof {
            if wf_listing(listing@) {
                lemma_scan_distinct(self, self.spec_root(), listing@);
            }
        }
        assert(views(out@) =~= Seq::<Seq<char>>::empty() + self.scan_spec(
            self.spec_root(),
            listing@,
        ));
        out
    }
}

/// Every entry of `a` is an entry of `b`.
pub open spec fn included<T>(a: Seq<T>, b: Seq<T>) -> bool {
    forall|i: int| 0 <= i < a.len() ==> b.contains(#[trigger] a[i])
}

/// Adding exclusion rules can only remove files from what is reported: where
/// `more` has the allow-list of `fewer` and at least its exclusion rules,
/// each name that `more` reports, `fewer` reports too.
pub proof fn lemma_more_exclusions_report_less(
    fewer: &FileSearcher,
    more: &FileSearcher,
    name: Seq<char>,
)
    requires
        fewer.targets() == more.targets(),
        included(fewer.ignored_extensions(), more.ignored_extensions()),
        included(fewer.ignored_filenames(), more.ignored_filenames()),
        included(fewer.ignored_patterns(), more.ignored_patterns()),
    ensures
        more.spec_should_report(name) ==> fewer.spec_should_report(name),
{
    if fewer.spec_is_ignore(name) {
        if any_kind(fewer.ignored_extensions(), name) {
            let i = choose|i: int|
                0 <= i < fewer.ignored_extensions().len() && fewer.ignored_extensions()[i]
                    == classify_spec(name);
            let j = choose|j: int|
                0 <= j < more.ignored_extensions().len() && more.ignored_extensions()[j]
                    == fewer.ignored_extensions()[i];
            assert(more.ignored_extensions()[j] == classify_spec(name));
        } else if fewer.ignored_filenames().contains(name) {
            let i = choose|i: int|
                0 <= i < fewer.ignored_filenames().len() && fewer.ignored_filenames()[i] == name;
            assert(more.ignored_filenames().contains(fewer.ignored_filenames()[i]));
        } else {
            let i = choose|i: int|
                0 <= i < fewer.ignored_patterns().len() && regex_finds(
                    fewer.ignored_patterns()[i],
                    name,
                );
            let j = choose|j: int|
                0 <= j < more.ignored_patterns().len() && more.ignored_patterns()[j]
                    == fewer.ignored_patterns()[i];
            assert(regex_finds(more.ignored_patterns()[j], name));
        }
    }
}

/// The paths that entry `e` of the listing of `dir` contributes to a scan.
pub open spec fn entry_scan(f: &FileSearcher, dir: Seq<char>, e: Entry) -> Seq<Seq<char>> {
    match e {
        Entry::File(name) => if f.spec_should_report(name@) {
            seq![join_spec(dir, name@)]
        } else {
            Seq::empty()
        },
        Entry::Dir(name, kids) => if f.spec_is_ignore(name@) {
            Seq::empty()
        } else {
            f.scan_spec(join_spec(dir, name@), kids@)
        },
    }
}

/// Each entry of `a` has an entry of `b` with the same name and kind, and,
/// for a directory, the two listings cover each other down to `depth`
/// further levels.
pub open spec fn covers(a: Seq<Entry>, b: Seq<Entry>, depth: nat) -> bool
    decreases depth,
{
    forall|i: int|
        #![trigger a[i]]
        0 <= i < a.len() ==> exists|j: int|
            #![trigger b[j]]
            0 <= j < b.len() && match (a[i], b[j]) {
                (Entry::File(x), Entry::File(y)) => x@ == y@,
                (Entry::Dir(x, ka), Entry::Dir(y, kb)) => depth > 0 && x@ == y@ && covers(
                    ka@,
                    kb@,
                    (depth - 1) as nat,
                ) && covers(kb@, ka@, (depth - 1) as nat),
                _ => false,
            }
}

proof fn lemma_scan_member(f: &FileSearcher, dir: Seq<char>, es: Seq<Entry>, p: Seq<char>)
    ensures
        f.scan_spec(dir, es).contains(p) <==> exists|i: int|
            0 <= i < es.len() && #[trigger] entry_scan(f, dir, es[i]).contains(p),
    decreases es.len(),
{
    if es.len() > 0 {
        let init = es.subrange(0, es.len() - 1);
        let last = es[es.len() - 1];
        lemma_scan_member(f, dir, init, p);
        let left = f.scan_spec(dir, init);
        let right = entry_scan(f, dir, last);
        assert(f.scan_spec(dir, es) == left + right);
        if f.scan_spec(dir, es).contains(p) {
            let k = choose|k: int| 0 <= k < (left + right).len() && (left + right)[k] == p;
            if k < left.len() {
                assert(left[k] == p);
                let i = choose|i: int| 0 <= i < init.len() && #[trigger] entry_scan(f, dir, init[i]).contains(p);
                assert(init[i] == es[i]);
            } else {
                assert(right[k - left.len()] == p);
                assert(entry_scan(f, dir, es[es.len() - 1]).contains(p));
            }
        }
        if exists|i: int| 0 <= i < es.len() && #[trigger] entry_scan(f, dir, es[i]).contains(p) {
            let i = choose|i: int| 0 <= i < es.len() && #[trigger] entry_scan(f, dir, es[i]).contains(p);
            if i < es.len() - 1 {
                assert(init[i] == es[i]);
                assert(left.contains(p));
                let k = choose|k: int| 0 <= k < left.len() && left[k] == p;
                assert((left + right)[k] == p);
            } else {
                let k = choose|k: int| 0 <= k < right.len() && right[k] == p;
                assert((left + right)[left.len() + k] == p);
            }
        }
    }
}

proof fn lemma_covers_scan(f: &FileSearcher, dir: Seq<char>, a: Seq<Entry>, b: Seq<Entry>, depth: nat, p: Seq<char>)
    requires
        covers(a, b, depth),
        f.scan_spec(dir, a).contains(p),
    ensures
        f.scan_spec(dir, b).contains(p),
    decreases depth,
{
    lemma_scan_member(f, dir, a, p);
    lemma_scan_member(f, dir, b, p);
    let i = choose|i: int| 0 <= i < a.len() && #[trigger] entry_scan(f, dir, a[i]).contains(p);
    let j = choose|j: int|
        #![trigger b[j]]
        0 <= j < b.len() && match (a[i], b[j]) {
            (Entry::File(x), Entry::File(y)) => x@ == y@,
            (Entry::Dir(x, ka), Entry::Dir(y, kb)) => depth > 0 && x@ == y@ && covers(
                ka@,
                kb@,
                (depth - 1) as nat,
            ) && covers(kb@, ka@, (depth - 1) as nat),
            _ => false,
        };
    match (a[i], b[j]) {
        (Entry::Dir(x, ka), Entry::Dir(y, kb)) => {
            lemma_covers_scan(f, join_spec(dir, x@), ka@, kb@, (depth - 1) as nat, p);
        },
        _ => {},
    }
    assert(entry_scan(f, dir, b[j]).contains(p));
}

/// Scanning an unchanged tree twice gives the same set of paths, even where
/// each read lists the entries of a directory in another order: `first` and
/// `second` are two listings of the same tree, `depth` levels deep.
pub proof fn lemma_scan_idempotent(
    f: &FileSearcher,
    first: Seq<Entry>,
    second: Seq<Entry>,
    depth: nat,
)
    requires
        covers(first, second, depth),
        covers(second, first, depth),
    ensures
        f.scan_spec(f.spec_root(), first).to_set() == f.scan_spec(f.spec_root(), second).to_set(),
{
    let root = f.spec_root();
    assert forall|p: Seq<char>| f.scan_spec(root, first).to_set().contains(p)
        == f.scan_spec(root, second).to_set().contains(p) by {
        if f.scan_spec(root, first).contains(p) {
            lemma_covers_scan(f, root, first, second, depth, p);
        }
        if f.scan_spec(root, second).contains(p) {
            lemma_covers_scan(f, root, second, first, depth, p);
        }
    }
    assert(f.scan_spec(root, first).to_set() =~= f.scan_spec(root, second).to_set());
}

/// The name of an entry.
pub open spec fn entry_name(e: Entry) -> Seq<char> {
    match e {
        Entry::File(name) => name@,
        Entry::Dir(name, _) => name@,
    }
}

/// A name that a directory can hold: not empty, without `/`.
pub open spec fn valid_name(name: Seq<char>) -> bool {
    name.len() > 0 && !name.contains('/')
}

/// A listing as a directory gives it: each name valid and used once among
/// its siblings, and the same of each subdirectory's listing.
pub open spec fn wf_listing(es: Seq<Entry>) -> bool
    decreases es,
{
    &&& forall|i: int| 0 <= i < es.len() ==> valid_name(#[trigger] entry_name(es[i]))
    &&& forall|i: int, j: int|
        0 <= i < j < es.len() ==> entry_name(#[trigger] es[i]) != entry_name(#[trigger] es[j])
    &&& forall|i: int|
        #![trigger es[i]]
        0 <= i < es.len() ==> match es[i] {
            Entry::Dir(_, kids) => wf_listing(kids@),
            Entry::File(_) => true,
        }
}

/// What `join_spec` puts before a name in directory `dir`.
pub open spec fn dir_prefix(dir: Seq<char>) -> Seq<char> {
    if dir.len() == 0 || dir.last() == '/' {
        dir
    } else {
        dir + seq!['/']
    }
}

/// The text of `s` before its first `/`.
pub open spec fn first_segment(s: Seq<char>) -> Seq<char>
    decreases s.len(),
{
    if s.len() == 0 || s[0] == '/' {
        Seq::empty()
    } else {
        seq![s[0]] + first_segment(s.drop_first())
    }
}

proof fn lemma_first_segment(name: Seq<char>, tail: Seq<char>)
    requires
        !name.contains('/'),
        tail.len() == 0 || tail[0] == '/',
    ensures
        first_segment(name + tail) == name,
    decreases name.len(),
{
    if name.len() > 0 {
        assert((name + tail)[0] == name[0]);
        assert((name + tail).drop_first() =~= name.drop_first() + tail);
        assert forall|k: int| 0 <= k < name.drop_first().len() implies name.drop_first()[k]
            != '/' by {
            assert(name.drop_first()[k] == name[k + 1]);
        }
        lemma_first_segment(name.drop_first(), tail);
        assert(seq![name[0]] + name.drop_first() =~= name);
    } else {
        assert(name + tail =~= tail);
    }
}

/// Each path that an entry contributes to a scan of `dir` starts with the
/// directory's prefix, followed by the entry's name as its next segment.
proof fn lemma_entry_paths(f: &FileSearcher, dir: Seq<char>, es: Seq<Entry>)
    requires
        wf_listing(es),
    ensures
        forall|i: int, p: Seq<char>|
            0 <= i < es.len() && #[trigger] entry_scan(f, dir, es[i]).contains(p) ==> {
                let pre = dir_prefix(dir);
                &&& pre.len() <= p.len()
                &&& p.subrange(0, pre.len() as int) == pre
                &&& first_segment(p.subrange(pre.len() as int, p.len() as int)) == entry_name(es[i])
            },
    decreases es,
{
    let pre = dir_prefix(dir);
    assert forall|i: int, p: Seq<char>|
        0 <= i < es.len() && #[trigger] entry_scan(f, dir, es[i]).contains(p) implies {
        &&& pre.len() <= p.len()
        &&& p.subrange(0, pre.len() as int) == pre
        &&& first_segment(p.subrange(pre.len() as int, p.len() as int)) == entry_name(es[i])
    } by {
        let name = entry_name(es[i]);
        assert(valid_name(name));
        assert(join_spec(dir, name) == pre + name);
        match es[i] {
            Entry::File(n) => {
                assert(p == pre + name);
                assert(p.subrange(0, pre.len() as int) =~= pre);
                assert(p.subrange(pre.len() as int, p.len() as int) =~= name + Seq::<char>::empty());
                lemma_first_segment(name, Seq::empty());
            },
            Entry::Dir(n, kids) => {
                let sub = join_spec(dir, name);
                assert(wf_listing(kids@));
                assert(decreases_to!(es => es[i]));
                lemma_scan_member(f, sub, kids@, p);
                lemma_entry_paths(f, sub, kids@);
                let k = choose|k: int|
                    0 <= k < kids@.len() && #[trigger] entry_scan(f, sub, kids@[k]).contains(p);
                assert(sub.last() == name.last());
                assert(dir_prefix(sub) == pre + name + seq!['/']);
                let q = dir_prefix(sub);
                let rest = p.subrange(q.len() as int, p.len() as int);
                assert(p =~= q + rest) by {
                    assert(p.subrange(0, q.len() as int) == q);
                }
                assert(p.subrange(0, pre.len() as int) =~= pre);
                assert(p.subrange(pre.len() as int, p.len() as int) =~= name + (seq!['/'] + rest));
                lemma_first_segment(name, seq!['/'] + rest);
            },
        }
    }
}

/// Over a listing as a directory gives it, a scan reports no path twice.
pub proof fn lemma_scan_distinct(f: &FileSearcher, dir: Seq<char>, es: Seq<Entry>)
    requires
        wf_listing(es),
    ensures
        f.scan_spec(dir, es).no_duplicates(),
    decreases es,
{
    if es.len() > 0 {
        let n = es.len() - 1;
        let init = es.subrange(0, n);
        let last = es[n];
        assert forall|i: int| #![trigger init[i]] 0 <= i < init.len() implies init[i] == es[i] by {}
        assert(wf_listing(init)) by {
            assert forall|i: int, j: int| 0 <= i < j < init.len() implies entry_name(
                #[trigger] init[i],
            ) != entry_name(#[trigger] init[j]) by {
                assert(init[i] == es[i] && init[j] == es[j]);
            }
            assert forall|i: int| 0 <= i < init.len() implies valid_name(
                #[trigger] entry_name(init[i]),
            ) by {
                assert(init[i] == es[i]);
                assert(valid_name(entry_name(es[i])));
            }
        }
        lemma_scan_distinct(f, dir, init);
        let left = f.scan_spec(dir, init);
        let right = entry_scan(f, dir, last);
        assert(f.scan_spec(dir, es) == left + right);
        assert(right.no_duplicates()) by {
            match last {
                Entry::Dir(name, kids) => {
                    assert(wf_listing(kids@));
                    if !f.spec_is_ignore(name@) {
                        lemma_scan_distinct(f, join_spec(dir, name@), kids@);
                    }
                },
                Entry::File(_) => {},
            }
        }
        lemma_entry_paths(f, dir, es);
        assert forall|a: int, b: int| 0 <= a < left.len() && 0 <= b < right.len() implies left[a]
            != right[b] by {
            let p = left[a];
            if p == right[b] {
                lemma_scan_member(f, dir, init, p);
                assert(left.contains(p));
                let i = choose|i: int| 0 <= i < init.len() && #[trigger] entry_scan(f, dir, init[i]).contains(p);
                assert(entry_scan(f, dir, es[i]).contains(p));
                assert(entry_scan(f, dir, es[n]).contains(p));
                assert(entry_name(es[i]) != entry_name(es[n]));
            }
        }
        let all = left + right;
        assert forall|a: int, b: int| 0 <= a < all.len() && 0 <= b < all.len() && a != b implies all[a]
            != all[b] by {
            if a < left.len() && b < left.len() {
            } else if a >= left.len() && b >= left.len() {
                assert(all[a] == right[a - left.len()] && all[b] == right[b - left.len()]);
            } else if a < left.len() {
                assert(all[b] == right[b - left.len()]);
            } else {
                assert(all[a] == right[a - left.len()]);
            }
        }
    }
}

/// The tags of extension names.
pub open spec fn kinds_of(names: Seq<Seq<char>>) -> Seq<Extension> {
    names.map_values(|e: Seq<char>| Extension::spec_from_name(e))
}

/// The tags of extension names.
fn kinds_from(names: &Vec<String>) -> (r: Vec<Extension>)
    ensures
        r@ == kinds_of(views(names@)),
{
    let mut kinds: Vec<Extension> = Vec::new();
    let mut i: usize = 0;
    while i < names.len()
        invariant
            i <= names@.len(),
            kinds@ == kinds_of(views(names@).subrange(0, i as int)),
        decreases names@.len() - i,
    {
        kinds.push(Extension::str_to_self(names[i].as_str()));
        i = i + 1;
        assert(kinds@ =~= kinds_of(views(names@).subrange(0, i as int)));
    }
    assert(views(names@).subrange(0, i as int) =~= views(names@));
    kinds
}

impl FileSearcherBuilder {
    /// The directory that a scan starts from.
    pub closed spec fn spec_root(&self) -> Seq<char> {
        self.root@
    }

    /// The allow-list of extensions.
    pub closed spec fn targets(&self) -> Seq<Extension> {
        self.target_extension@
    }

    /// The excluded extensions.
    pub closed spec fn ignored_extensions(&self) -> Seq<Extension> {
        self.ignore_extension@
    }

    /// The excluded base filenames.
    pub closed spec fn ignored_filenames(&self) -> Seq<Seq<char>> {
        views(self.ignore_filenames@)
    }

    /// The sources of the excluded patterns.
    pub closed spec fn ignored_patterns(&self) -> Seq<Seq<char>> {
        sources(self.ignore_re@)
    }

    /// No rules, rooted at `./`.
    pub fn new() -> (r: FileSearcherBuilder)
        ensures
            r.spec_root() == "./"@,
            r.targets() == Seq::<Extension>::empty(),
            r.ignored_extensions() == Seq::<Extension>::empty(),
            r.ignored_filenames() == Seq::<Seq<char>>::empty(),
            r.ignored_patterns() == Seq::<Seq<char>>::empty(),
    {
        let r = FileSearcherBuilder {
            root: String::from_str("./"),
            target_extension: Vec::new(),
            ignore_re: Vec::new(),
            ignore_filenames: Vec::new(),
            ignore_extension: Vec::new(),
        };
        assert(r.ignored_filenames() =~= Seq::<Seq<char>>::empty());
        assert(r.ignored_patterns() =~= Seq::<Seq<char>>::empty());
        r
    }

    /// A searcher with these rules.
    pub fn build(self) -> (r: FileSearcher)
        ensures
            r.spec_root() == self.spec_root(),
            r.targets() == self.targets(),
            r.ignored_extensions() == self.ignored_extensions(),
            r.ignored_filenames() == self.ignored_filenames(),
            r.ignored_patterns() == self.ignored_patterns(),
    {
        FileSearcher {
            root: self.root,
            target_extensions: self.target_extension,
            ignore_re: self.ignore_re,
            ignore_filenames: self.ignore_filenames,
            ignore_extension: self.ignore_extension,
        }
    }

    /// Sets the directory that a scan starts from.
    pub fn root(self, root: &str) -> (r: FileSearcherBuilder)
        ensures
            r.spec_root() == root@,
            r.targets() == self.targets(),
            r.ignored_extensions() == self.ignored_extensions(),
            r.ignored_filenames() == self.ignored_filenames(),
            r.ignored_patterns() == self.ignored_patterns(),
    {
        let mut b = self;
        b.set_root(root);
        b
    }

    /// Sets the directory that a scan starts from.
    pub fn set_root(&mut self, root: &str)
        ensures
            final(self).spec_root() == root@,
            final(self).targets() == old(self).targets(),
            final(self).ignored_extensions() == old(self).ignored_extensions(),
            final(self).ignored_filenames() == old(self).ignored_filenames(),
            final(self).ignored_patterns() == old(self).ignored_patterns(),
    {
        self.root = String::from_str(root);
    }

    /// Adds the extension named `target_extension` to the allow-list.
    pub fn target_extension(self, target_extension: &str) -> (r: FileSearcherBuilder)
        ensures
            r.spec_root() == self.spec_root(),
            r.targets() == self.targets().push(Extension::spec_from_name(target_extension@)),
            r.ignored_extensions() == self.ignored_extensions(),
            r.ignored_filenames() == self.ignored_filenames(),
            r.ignored_patterns() == self.ignored_patterns(),
    {
        let mut b = self;
        b.target_extension.push(Extension::str_to_self(target_extension));
        b
    }

    /// Excludes entries named `filename`.
    pub fn ignore_filename(self, filename: &str) -> (r: FileSearcherBuilder)
        ensures
            r.spec_root() == self.spec_root(),
            r.targets() == self.targets(),
            r.ignored_extensions() == self.ignored_extensions(),
            r.ignored_filenames() == self.ignored_filenames().push(filename@),
            r.ignored_patterns() == self.ignored_patterns(),
    {
        let mut b = self;
        b.ignore_filenames.push(String::from_str(filename));
        assert(b.ignored_filenames() =~= self.ignored_filenames().push(filename@));
        b
    }

    /// Excludes entries with the extension named `extension`.
    pub fn ignore_extension(self, extension: &str) -> (r: FileSearcherBuilder)
        ensures
            r.spec_root() == self.spec_root(),
            r.targets() == self.targets(),
            r.ignored_extensions() == self.ignored_extensions().push(
                Extension::spec_from_name(extension@),
            ),
            r.ignored_filenames() == self.ignored_filenames(),
            r.ignored_patterns() == self.ignored_patterns(),
    {
        let mut b = self;
        b.ignore_extension.push(Extension::str_to_self(extension));
        b
    }

    /// Excludes entries whose name the regular expression `re` matches; an
    /// error where `re` does not compile.
    pub fn ignore_re(self, re: &str) -> (r: Result<FileSearcherBuilder, ConfigError>)
        ensures
            r is Ok <==> regex_compiles(re@),
            r matches Err(ConfigError::InvalidPattern(p)) ==> p@ == re@,
            r is Ok ==> ({
                let b = r->Ok_0;
                &&& b.spec_root() == self.spec_root()
                &&& b.targets() == self.targets()
                &&& b.ignored_extensions() == self.ignored_extensions()
                &&& b.ignored_filenames() == self.ignored_filenames()
                &&& b.ignored_patterns() == self.ignored_patterns().push(re@)
            }),
    {
        match IgnorePattern::new(re) {
            Ok(p) => {
                let mut b = self;
                b.ignore_re.push(p);
                assert(b.ignored_patterns() =~= self.ignored_patterns().push(re@));
                Ok(b)
            },
            Err(e) => Err(e),
        }
    }

    /// Replaces the excluded filenames.
    pub fn set_ignore_files(&mut self, filenames: Vec<String>)
        ensures
            final(self).spec_root() == old(self).spec_root(),
            final(self).targets() == old(self).targets(),
            final(self).ignored_extensions() == old(self).ignored_extensions(),
            final(self).ignored_filenames() == views(filenames@),
            final(self).ignored_patterns() == old(self).ignored_patterns(),
    {
        self.ignore_filenames = filenames;
    }

    /// Replaces the excluded patterns; where one does not compile, an error
    /// that holds the first such, and the builder is left as it was.
    pub fn set_ignore_re(&mut self, re: Vec<String>) -> (r: Result<(), ConfigError>)
        ensures
            r is Ok <==> forall|i: int| 0 <= i < re@.len() ==> regex_compiles(#[trigger] re@[i]@),
            r matches Err(ConfigError::InvalidPattern(p)) ==> exists|i: int|
                0 <= i < re@.len() && p@ == re@[i]@ && !regex_compiles(re@[i]@) && (forall|j: int|
                    0 <= j < i ==> regex_compiles(#[trigger] re@[j]@)),
            final(self).spec_root() == old(self).spec_root(),
            final(self).targets() == old(self).targets(),
            final(self).ignored_extensions() == old(self).ignored_extensions(),
            final(self).ignored_filenames() == old(self).ignored_filenames(),
            final(self).ignored_patterns() == if r is Ok {
                views(re@)
            } else {
                old(self).ignored_patterns()
            },
    {
        let mut compiled: Vec<IgnorePattern> = Vec::new();
        let mut i: usize = 0;
        while i < re.len()
            invariant
                i <= re@.len(),
                compiled@.len() == i,
                forall|j: int| 0 <= j < i ==> regex_compiles(#[trigger] re@[j]@),
                forall|j: int| 0 <= j < i ==> (#[trigger] compiled@[j]).source() == re@[j]@,
            decreases re@.len() - i,
        {
            match IgnorePattern::new(re[i].as_str()) {
                Ok(p) => compiled.push(p),
                Err(e) => {
                    assert(!regex_compiles(re@[i as int]@));
                    return Err(e);
                },
            }
            i = i + 1;
        }
        assert(sources(compiled@) =~= views(re@));
        self.ignore_re = compiled;
        Ok(())
    }

    /// Replaces the allow-list with the extensions named in `target_extensions`.
    pub fn set_target_extensions(&mut self, target_extensions: Vec<String>)
        ensures
            final(self).spec_root() == old(self).spec_root(),
            final(self).targets() == kinds_of(views(target_extensions@)),
            final(self).ignored_extensions() == old(self).ignored_extensions(),
            final(self).ignored_filenames() == old(self).ignored_filenames(),
            final(self).ignored_patterns() == old(self).ignored_patterns(),
    {
        self.target_extension = kinds_from(&target_extensions);
    }

    /// Replaces the excluded extensions with those named in `extensions`.
    pub fn set_ignore_extensions(&mut self, extensions: Vec<String>)
        ensures
            final(self).spec_root() == old(self).spec_root(),
            final(self).targets() == old(self).targets(),
            final(self).ignored_extensions() == kinds_of(views(extensions@)),
            final(self).ignored_filenames() == old(self).ignored_filenames(),
            final(self).ignored_patterns() == old(self).ignored_patterns(),
    {
        self.ignore_extension = kinds_from(&extensions);
    }
}

} // verus!
