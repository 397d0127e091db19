//! What a listing needs besides its entries: the nearest directory that
//! defines the listing template, and the description shown above it.
use vstd::prelude::*;
use crate::entry::{decode_lossy, lossy_text};
use crate::route::{join_path, joined, within, RouteError};
use crate::text::head_to;

verus! {

/// Name for the HTML that `markdown::to_html` makes of a Markdown text.
pub uninterp spec fn markdown_html(s: Seq<char>) -> Seq<char>;

/// Relies on `markdown::to_html`: the HTML depends on the text alone.
#[verifier::external_body]
fn render_markdown(s: &str) -> (r: String)
    ensures
        r@ == markdown_html(s@),
{
    markdown::to_html(s)
}

/// The description shown above a listing: the directory's README rendered
/// as HTML, or nothing where there is no README.
pub fn readme_description(readme: Option<Vec<u8>>) -> (r: String)
    ensures
        r@ == match readme {
            Some(b) => markdown_html(lossy_text(b@)),
            None => Seq::<char>::empty(),
        },
{
    match readme {
        Some(b) => {
            let text = decode_lossy(&b);
            render_markdown(text.as_str())
        },
        None => String::new(),
    }
}

/// Position of the last `/` in `d`, or -1 where it has none.
pub open spec fn last_sep(d: Seq<char>) -> int
    decreases d.len(),
{
    if d.len() == 0 {
        -1
    } else if d.last() == '/' {
        d.len() - 1
    } else {
        last_sep(d.drop_last())
    }
}

/// The directory that holds `d`: `d` without its last component. `/` and a
/// path with no separator have none.
pub open spec fn parent(d: Seq<char>) -> Option<Seq<char>> {
    let k = last_sep(d);
    if k < 0 || d.len() <= 1 {
        None
    } else if k == 0 {
        Some(seq!['/'])
    } else {
        Some(d.take(k))
    }
}

proof fn lemma_last_sep_bounds(d: Seq<char>)
    ensures
        -1 <= last_sep(d) < d.len(),
        last_sep(d) >= 0 ==> d[last_sep(d)] == '/',
        forall|i: int| last_sep(d) < i < d.len() ==> d[i] != '/',
    decreases d.len(),
{
    if d.len() > 0 && d.last() != '/' {
        lemma_last_sep_bounds(d.drop_last());
        assert forall|i: int| last_sep(d) < i < d.len() implies d[i] != '/' by {
            if i < d.len() - 1 {
                assert(d.drop_last()[i] == d[i]);
            }
        }
    }
}

/// A parent is shorter than its child.
pub proof fn lemma_parent_shorter(d: Seq<char>)
    ensures
        parent(d) matches Some(p) ==> p.len() < d.len(),
{
    lemma_last_sep_bounds(d);
}

/// The directories searched for a listing template: `d` and its ancestors,
/// nearest first, as long as they lie within `root`.
pub open spec fn ancestors(root: Seq<char>, d: Seq<char>) -> Seq<Seq<char>>
    decreases d.len(),
{
    if !within(root, d) {
        seq![]
    } else {
        match parent(d) {
            None => seq![d],
            Some(p) => if p.len() < d.len() {
                seq![d] + ancestors(root, p)
            } else {
                seq![d]
            },
        }
    }
}

/// The glob of the template files that a directory defines.
pub open spec fn template_glob_of(d: Seq<char>) -> Seq<char> {
    joined(joined(d, ".templates"@), "*.html"@)
}

/// The directory that holds `dir`, where it has one.
pub fn parent_dir(dir: &str) -> (r: Option<String>)
    ensures
        r matches Some(p) ==> parent(dir@) == Some(p@),
        r is None ==> parent(dir@) is None,
{
    let n = dir.unicode_len();
    let mut k: usize = n;
    assert(dir@.take(n as int) =~= dir@);
    while k > 0 && dir.get_char(k - 1) != '/'
        invariant
            n == dir@.len(),
            k <= n,
            last_sep(dir@) == last_sep(dir@.take(k as int)),
        decreases k,
    {
        assert(dir@.take(k as int).drop_last() =~= dir@.take(k - 1));
        k -= 1;
    }
    proof {
        if k > 0 {
            assert(dir@.take(k as int).last() == dir@[k - 1]);
            assert(last_sep(dir@) == k - 1);
        } else {
            assert(last_sep(dir@) == -1);
        }
    }
    if k == 0 || n <= 1 {
        None
    } else if k == 1 {
        let s = String::from_str("/");
        proof {
            reveal_strlit("/");
            assert(s@ =~= seq!['/']);
        }
        Some(s)
    } else {
        Some(head_to(dir, k - 1))
    }
}

/// The directories to search for a listing template, nearest first: `dir`
/// and its ancestors, as long as they lie within `root`.
pub fn template_dirs(root: &str, dir: &str) -> (r: Vec<String>)
    ensures
        r@.len() == ancestors(root@, dir@).len(),
        forall|i: int| 0 <= i < r@.len() ==> #[trigger] r@[i]@ == ancestors(root@, dir@)[i],
{
    let mut out: Vec<String> = Vec::new();
    let mut cur = dir.to_owned();
    let mut done = false;
    while !done
        invariant
            ancestors(root@, dir@) =~= out@.map_values(|s: String| s@) + (if done {
                Seq::<Seq<char>>::empty()
            } else {
                ancestors(root@, cur@)
            }),
        decreases cur@.len() + (if done { 0int } else { 1int }),
    {
        proof {
            lemma_parent_shorter(cur@);
        }
        if crate::route::confine(root, cur.clone()).is_err() {
            assert(ancestors(root@, cur@) =~= Seq::<Seq<char>>::empty());
            done = true;
        } else {
            let next = parent_dir(cur.as_str());
            let ghost before = out@;
            out.push(cur.clone());
            assert(out@.map_values(|s: String| s@) =~= before.map_values(|s: String| s@).push(
                cur@,
            ));
            match next {
                Some(p) => {
                    assert(ancestors(root@, cur@) =~= seq![cur@] + ancestors(root@, p@));
                    cur = p;
                },
                None => {
                    assert(ancestors(root@, cur@) =~= seq![cur@]);
                    done = true;
                },
            }
        }
    }
    assert forall|i: int| 0 <= i < out@.len() implies #[trigger] out@[i]@ == ancestors(
        root@,
        dir@,
    )[i] by {
        assert(out@.map_values(|s: String| s@)[i] == out@[i]@);
    }
    out
}


/// The glob of the template files that `dir` defines.
pub fn template_glob(dir: &str) -> (r: String)
    ensures
        r@ == template_glob_of(dir@),
{
    let t = join_path(dir, ".templates");
    join_path(t.as_str(), "*.html")
}

/// `k` is the first of the searched directories found to define the
/// template.
pub open spec fn selects(defines: Seq<bool>, k: int) -> bool {
    0 <= k < defines.len() && defines[k] && forall|i: int| 0 <= i < k ==> !defines[i]
}

/// None of the directories searched so far defines the template.
pub open spec fn none_defined(defines: Seq<bool>) -> bool {
    forall|i: int| 0 <= i < defines.len() ==> !defines[i]
}

/// What the template search does next.
#[derive(Debug)]
pub enum TemplateStep {
    /// Load the templates of this glob and report whether they define the
    /// listing template.
    Load(String),
    /// Use the templates of the directory at this position.
    Use(usize),
    /// No directory defines the template.
    NotFound,
}

/// One step of the template search over `dirs`, nearest first, given
/// whether each of the directories searched so far defines the template.
pub fn template_step(dirs: &Vec<String>, defines: &Vec<bool>) -> (r: TemplateStep)
    ensures
        r matches TemplateStep::Use(k) ==> k < dirs@.len() && selects(defines@, k as int),
        r matches TemplateStep::Load(g) ==> defines@.len() < dirs@.len() && none_defined(defines@)
            && g@ == template_glob_of(dirs@[defines@.len() as int]@),
        r is NotFound ==> dirs@.len() <= defines@.len() && none_defined(
            defines@.take(dirs@.len() as int),
        ),
{
    let mut i: usize = 0;
    while i < defines.len() && i < dirs.len()
        invariant
            i <= defines@.len(),
            i <= dirs@.len(),
            forall|j: int| 0 <= j < i ==> !defines@[j],
        decreases defines@.len() - i,
    {
        if defines[i] {
            return TemplateStep::Use(i);
        }
        i += 1;
    }
    if i < dirs.len() {
        TemplateStep::Load(template_glob(dirs[i].as_str()))
    } else {
        TemplateStep::NotFound
    }
}

proof fn lemma_last_sep_after(a: Seq<char>, b: Seq<char>)
    requires
        forall|i: int| 0 <= i < b.len() ==> b[i] != '/',
    ensures
        last_sep(a + seq!['/'] + b) == a.len(),
    decreases b.len(),
{
    if b.len() == 0 {
        assert((a + seq!['/'] + b).last() == '/');
    } else {
        lemma_last_sep_after(a, b.drop_last());
        assert((a + seq!['/'] + b).drop_last() =~= a + seq!['/'] + b.drop_last());
    }
}

/// One component appended to a directory has that directory as parent.
proof fn lemma_parent_of_child(a: Seq<char>, b: Seq<char>)
    requires
        a.len() > 0,
        forall|i: int| 0 <= i < b.len() ==> b[i] != '/',
    ensures
        parent(a + seq!['/'] + b) == Some(a),
{
    lemma_last_sep_after(a, b);
    assert((a + seq!['/'] + b).take(a.len() as int) =~= a);
}

/// A directory one component below `a` lies within `a`.
proof fn lemma_child_within(root: Seq<char>, a: Seq<char>, b: Seq<char>)
    requires
        within(root, a),
        root.len() > 0,
        root.last() != '/',
    ensures
        within(root, a + seq!['/'] + b),
{
    let c = a + seq!['/'] + b;
    assert(c.subrange(0, root.len() as int) =~= root) by {
        if a != root {
            assert(a.subrange(0, root.len() as int) =~= root);
        }
    }
    if a == root {
        assert(c[root.len() as int] == '/');
    } else {
        assert(c[root.len() as int] == a[root.len() as int]);
    }
}

/// A name of one path component: not empty, no separator.
pub open spec fn component(b: Seq<char>) -> bool {
    b.len() > 0 && forall|i: int| 0 <= i < b.len() ==> b[i] != '/'
}

/// With templates defined both at `root` and at `root/sub`, the search for
/// `root/sub/deep/file` goes from the file upwards and settles on
/// `root/sub`, not on `root`.
pub proof fn lemma_nearest_template_wins(
    root: Seq<char>,
    sub: Seq<char>,
    deep: Seq<char>,
    file: Seq<char>,
)
    requires
        root.len() > 0,
        root.last() != '/',
        component(sub),
        component(deep),
        component(file),
    ensures
        ({
            let s = root + seq!['/'] + sub;
            let d = s + seq!['/'] + deep;
            let f = d + seq!['/'] + file;
            &&& ancestors(root, f) == seq![f, d, s, root]
            &&& forall|k: int| selects(seq![false, false, true, true], k) ==> k == 2
        }),
{
    let s = root + seq!['/'] + sub;
    let d = s + seq!['/'] + deep;
    let f = d + seq!['/'] + file;
    lemma_parent_of_child(root, sub);
    lemma_parent_of_child(s, deep);
    lemma_parent_of_child(d, file);
    lemma_child_within(root, root, sub);
    lemma_child_within(root, s, deep);
    lemma_child_within(root, d, file);
    lemma_parent_shorter(root);
    if parent(root) is Some {
        let p = parent(root).unwrap();
        assert(p.len() != root.len());
        assert(!within(root, p));
        assert(ancestors(root, p) =~= Seq::<Seq<char>>::empty());
    }
    assert(ancestors(root, root) =~= seq![root]);
    assert(ancestors(root, s) =~= seq![s, root]);
    assert(ancestors(root, d) =~= seq![d, s, root]);
    assert(ancestors(root, f) =~= seq![f, d, s, root]);
    assert forall|k: int| selects(seq![false, false, true, true], k) implies k == 2 by {
        if k > 2 {
            assert(seq![false, false, true, true][2]);
        }
    }
}

} // verus!
