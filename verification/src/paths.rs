use vstd::prelude::*;

verus! {

// A path is modelled as its components: for `src/a/b.md` the parts
// `["src", "a", "b.md"]`. The last part of a source path is its file name.

/// Index of the last `.` in `name` at or before position `i`, `-1` if there is none.
pub open spec fn last_dot_at_or_before(name: Seq<char>, i: int) -> int
    decreases i + 1,
{
    if i < 0 || i >= name.len() {
        -1
    } else if name[i] == '.' {
        i
    } else {
        last_dot_at_or_before(name, i - 1)
    }
}

/// Index of the dot that separates a file name's stem from its extension,
/// `-1` if the name has no dot at all.
pub open spec fn spec_sep(name: Seq<char>) -> int {
    last_dot_at_or_before(name, name.len() - 1)
}

/// The stem of a file name: what precedes the separating dot. A name without a
/// dot, or whose only dot leads it (a hidden file), is its own stem.
pub open spec fn spec_stem(name: Seq<char>) -> Seq<char> {
    if spec_sep(name) > 0 {
        name.subrange(0, spec_sep(name))
    } else {
        name
    }
}

/// The extension of a file name: what follows the separating dot, if any.
pub open spec fn spec_ext(name: Seq<char>) -> Option<Seq<char>> {
    if spec_sep(name) > 0 {
        Some(name.subrange(spec_sep(name) + 1, name.len() as int))
    } else {
        None
    }
}

fn last_dot_index(name: &str) -> (r: Option<usize>)
    ensures
        match r {
            Some(i) => spec_sep(name@) == i && i < name@.len(),
            None => spec_sep(name@) == -1,
        },
{
    let n = name.unicode_len();
    let mut j: usize = n;
    while j > 0
        invariant
            j <= n,
            n == name@.len(),
            last_dot_at_or_before(name@, n - 1) == last_dot_at_or_before(name@, j - 1),
        decreases j,
    {
        if name.get_char(j - 1) == '.' {
            return Some(j - 1);
        }
        assert(last_dot_at_or_before(name@, j - 1) == last_dot_at_or_before(name@, j - 2));
        j = j - 1;
    }
    None
}

/// The stem of a file name, as `spec_stem` states it.
pub fn name_stem(name: &str) -> (r: String)
    ensures
        r@ == spec_stem(name@),
{
    match last_dot_index(name) {
        Some(i) if i > 0 => name.substring_char(0, i).to_owned(),
        _ => name.to_owned(),
    }
}

/// Whether a file name carries the source-document extension `md`.
pub fn has_md_extension(name: &str) -> (r: bool)
    ensures
        r == (spec_ext(name@) == Some("md"@)),
{
    match last_dot_index(name) {
        Some(i) if i > 0 => {
            let n = name.unicode_len();
            let ext = name.substring_char(i + 1, n);
            ext.to_owned() == String::from_str("md")
        },
        _ => false,
    }
}

/// The address text for a sequence of address parts: each part led by `/`.
pub open spec fn slash_join(parts: Seq<Seq<char>>) -> Seq<char>
    decreases parts.len(),
{
    if parts.len() == 0 {
        Seq::empty()
    } else {
        slash_join(parts.drop_last()) + seq!['/'] + parts.last()
    }
}

/// The site address for a page: `/` for the root page, else one `/`-led
/// segment per address part.
pub open spec fn spec_uri(parts: Seq<Seq<char>>) -> Seq<char> {
    if parts.len() == 0 {
        seq!['/']
    } else {
        slash_join(parts)
    }
}

pub proof fn lemma_slash_join_rooted(parts: Seq<Seq<char>>)
    requires
        parts.len() > 0,
    ensures
        slash_join(parts).len() > 0,
        slash_join(parts)[0] == '/',
    decreases parts.len(),
{
    if parts.drop_last().len() == 0 {
        assert(slash_join(parts.drop_last()) == Seq::<char>::empty());
    } else {
        lemma_slash_join_rooted(parts.drop_last());
    }
}

/// Every address is rooted: it begins with `/` whatever the parts are.
pub proof fn lemma_uri_rooted(parts: Seq<Seq<char>>)
    ensures
        spec_uri(parts).len() > 0,
        spec_uri(parts)[0] == '/',
{
    if parts.len() > 0 {
        lemma_slash_join_rooted(parts);
    }
}

/// The address text for a sequence of address parts.
pub fn uri_string(parts: &Vec<String>) -> (r: String)
    ensures
        r@ == spec_uri(parts.deep_view()),
{
    proof {
        reveal_strlit("/");
    }
    if parts.len() == 0 {
        let r = String::from_str("/");
        proof {
            assert(r@ =~= seq!['/']);
        }
        r
    } else {
        let mut s = String::new();
        let mut i: usize = 0;
        while i < parts.len()
            invariant
                i <= parts.len(),
                "/"@ =~= seq!['/'],
                s@ == slash_join(parts.deep_view().take(i as int)),
            decreases parts.len() - i,
        {
            s.append("/");
            s.append(parts[i].as_str());
            proof {
                let dv = parts.deep_view();
                assert(dv.take(i + 1).drop_last() =~= dv.take(i as int));
                assert(dv.take(i + 1).last() == dv[i as int]);
                assert(s@ =~= slash_join(dv.take(i + 1)));
            }
            i = i + 1;
        }
        proof {
            assert(parts.deep_view().take(parts.len() as int) =~= parts.deep_view());
        }
        s
    }
}

/// The components of a source path relative to the source root.
pub open spec fn rel_parts(src: Seq<Seq<char>>, root: Seq<Seq<char>>) -> Seq<Seq<char>> {
    src.subrange(root.len() as int, src.len() as int)
}

/// The address parts of a page: a file named `index` addresses its containing
/// directory, any other file adds its own stem as a segment.
pub open spec fn address_parts(rel: Seq<Seq<char>>) -> Seq<Seq<char>>
    recommends
        rel.len() > 0,
{
    if spec_stem(rel.last()) == "index"@ {
        rel.drop_last()
    } else {
        rel.drop_last().push(spec_stem(rel.last()))
    }
}

/// The components of the output file for an address: the output root, then the
/// address parts, then `index.html`.
pub open spec fn out_parts(out_root: Seq<Seq<char>>, addr: Seq<Seq<char>>) -> Seq<Seq<char>> {
    out_root + addr + seq!["index.html"@]
}

/// The output tree mirrors the address space: every output path opens with the
/// output root, carries the address segments in their order, and closes with
/// `index.html`, so a page is served from its address with no file extension.
pub proof fn lemma_out_mirrors_address(out_root: Seq<Seq<char>>, addr: Seq<Seq<char>>)
    ensures
        out_parts(out_root, addr).len() == out_root.len() + addr.len() + 1,
        out_parts(out_root, addr).subrange(0, out_root.len() as int) == out_root,
        out_parts(out_root, addr).subrange(
            out_root.len() as int,
            (out_root.len() + addr.len()) as int,
        ) == addr,
        out_parts(out_root, addr).last() == "index.html"@,
{
    assert(out_parts(out_root, addr).subrange(0, out_root.len() as int) =~= out_root);
    assert(out_parts(out_root, addr).subrange(out_root.len() as int, (out_root.len() + addr.len()) as int)
        =~= addr);
}

/// The text of a path's components, joined by `/` with no leading separator.
pub open spec fn path_text(parts: Seq<Seq<char>>) -> Seq<char>
    decreases parts.len(),
{
    if parts.len() == 0 {
        Seq::empty()
    } else if parts.len() == 1 {
        parts.first()
    } else {
        path_text(parts.drop_last()) + seq!['/'] + parts.last()
    }
}

pub proof fn lemma_path_text_concat(a: Seq<Seq<char>>, b: Seq<Seq<char>>)
    requires
        a.len() > 0,
        b.len() > 0,
    ensures
        path_text(a + b) == path_text(a) + seq!['/'] + path_text(b),
    decreases b.len(),
{
    if b.len() == 1 {
        assert((a + b).drop_last() =~= a);
        assert((a + b).last() == b.first());
    } else {
        assert((a + b).drop_last() =~= a + b.drop_last());
        assert((a + b).last() == b.last());
        lemma_path_text_concat(a, b.drop_last());
        assert(path_text(a) + seq!['/'] + path_text(b.drop_last()) + seq!['/'] + b.last() =~= path_text(
            a,
        ) + seq!['/'] + (path_text(b.drop_last()) + seq!['/'] + b.last()));
    }
}

/// An address is the `/`-rooted form of its segments' text.
pub proof fn lemma_slash_join_is_rooted_text(p: Seq<Seq<char>>)
    requires
        p.len() > 0,
    ensures
        slash_join(p) == seq!['/'] + path_text(p),
    decreases p.len(),
{
    if p.len() == 1 {
        assert(slash_join(p.drop_last()) == Seq::<char>::empty());
        assert(Seq::<char>::empty() + seq!['/'] + p.last() =~= seq!['/'] + p.first());
    } else {
        lemma_slash_join_is_rooted_text(p.drop_last());
        assert(seq!['/'] + path_text(p.drop_last()) + seq!['/'] + p.last() =~= seq!['/'] + (
        path_text(p.drop_last()) + seq!['/'] + p.last()));
    }
}

/// The output location spells the address: the text of a page's output path is
/// the text of the output root, then the site address, then `/index.html`;
/// the root page, whose address is the bare `/`, lands at the output root's
/// own `index.html`.
pub proof fn lemma_out_text_spells_address(out_root: Seq<Seq<char>>, addr: Seq<Seq<char>>)
    requires
        out_root.len() > 0,
    ensures
        addr.len() > 0 ==> path_text(out_parts(out_root, addr)) == path_text(out_root) + spec_uri(
            addr,
        ) + seq!['/'] + "index.html"@,
        addr.len() == 0 ==> path_text(out_parts(out_root, addr)) == path_text(out_root) + spec_uri(
            addr,
        ) + "index.html"@,
{
    let ih = seq!["index.html"@];
    assert(path_text(ih) == "index.html"@);
    if addr.len() == 0 {
        assert(out_parts(out_root, addr) =~= out_root + ih);
        lemma_path_text_concat(out_root, ih);
        assert(path_text(out_root) + seq!['/'] + "index.html"@ =~= path_text(out_root) + spec_uri(
            addr,
        ) + "index.html"@);
    } else {
        assert(out_parts(out_root, addr) =~= out_root + (addr + ih));
        lemma_path_text_concat(out_root, addr + ih);
        lemma_path_text_concat(addr, ih);
        lemma_slash_join_is_rooted_text(addr);
        assert(path_text(out_root) + seq!['/'] + (path_text(addr) + seq!['/'] + "index.html"@)
            =~= path_text(out_root) + (seq!['/'] + path_text(addr)) + seq!['/'] + "index.html"@);
    }
}

pub(crate) proof fn lemma_deep_view_push<T: DeepView>(v: Vec<T>, pre: Vec<T>, x: T)
    requires
        v@ == pre@.push(x),
    ensures
        v.deep_view() == pre.deep_view().push(x.deep_view()),
{
    assert(pre.deep_view().len() == pre@.len());
    assert(v.deep_view().len() == pre@.len() + 1);
    assert forall|m: int| 0 <= m < v@.len() implies v.deep_view()[m] == pre.deep_view().push(
        x.deep_view(),
    )[m] by {
        if m < pre@.len() {
            assert(v@[m] == pre@[m]);
            assert(pre.deep_view()[m] == pre@[m].deep_view());
        } else {
            assert(v@[m] == x);
        }
    }
    assert(v.deep_view() =~= pre.deep_view().push(x.deep_view()));
}

pub(crate) fn append_parts(dst: &mut Vec<String>, parts: &Vec<String>)
    ensures
        final(dst).deep_view() == old(dst).deep_view() + parts.deep_view(),
{
    proof {
        assert(old(dst).deep_view() + parts.deep_view().take(0) =~= old(dst).deep_view());
    }
    let mut j: usize = 0;
    while j < parts.len()
        invariant
            j <= parts.len(),
            dst.deep_view() == old(dst).deep_view() + parts.deep_view().take(j as int),
        decreases parts.len() - j,
    {
        let ghost prevv = dst@;
        let ghost prevdv = dst.deep_view();
        let x = parts[j].clone();
        proof {
            assert(x == parts@[j as int]);
        }
        dst.push(x);
        proof {
            assert(dst@ == prevv.push(parts@[j as int]));
            assert(prevdv.len() == prevv.len());
            assert(dst.deep_view().len() == prevdv.len() + 1);
            assert(parts.deep_view().take(j + 1).len() == j + 1);
            assert forall|m: int| 0 <= m < dst@.len() implies dst.deep_view()[m] == (old(
                dst,
            ).deep_view() + parts.deep_view().take(j + 1))[m] by {
                if m < prevv.len() {
                    assert(dst@[m] == prevv[m]);
                    assert(prevdv[m] == prevv[m].deep_view());
                } else {
                    assert(dst@[m] == parts@[j as int]);
                    assert(parts.deep_view()[j as int] == parts@[j as int].deep_view());
                }
            }
            assert(dst.deep_view() =~= old(dst).deep_view() + parts.deep_view().take(j + 1));
        }
        j = j + 1;
    }
    proof {
        assert(old(dst).deep_view() + parts.deep_view().take(parts.len() as int) =~= old(
            dst,
        ).deep_view() + parts.deep_view());
    }
}

/// The names that refer to one page: the source path it is built from, the
/// output path its result is written to, and the address it is served at.
pub struct PageTriple {
    pub src: Vec<String>,
    pub out: Vec<String>,
    pub uri: String,
}

impl PageTriple {
    /// Resolves a source path that lies under the source root to its output
    /// path under the output root and to its rooted site address.
    pub fn new(src: Vec<String>, src_dir: &Vec<String>, out_dir: &Vec<String>) -> (r: PageTriple)
        requires
            src_dir.deep_view().len() < src.deep_view().len(),
            src.deep_view().subrange(0, src_dir.deep_view().len() as int) == src_dir.deep_view(),
        ensures
            r.src == src,
            r.out.deep_view() == out_parts(
                out_dir.deep_view(),
                address_parts(rel_parts(src.deep_view(), src_dir.deep_view())),
            ),
            r.uri@ == spec_uri(address_parts(rel_parts(src.deep_view(), src_dir.deep_view()))),
            r.uri@.len() > 0,
            r.uri@[0] == '/',
    {
        let ghost dv = src.deep_view();
        let ghost rel = rel_parts(src.deep_view(), src_dir.deep_view());
        let k = src_dir.len();
        let n = src.len();
        proof {
            assert(dv.len() == n);
            assert(k == src_dir.deep_view().len());
        }
        let stem = name_stem(src[n - 1].as_str());
        proof {
            assert(dv[n - 1] == src@[n - 1 as int]@);
            assert(rel.last() == dv[n - 1]);
        }
        let is_index = stem == String::from_str("index");

        let mut addr: Vec<String> = Vec::new();
        let mut i: usize = k;
        while i < n - 1
            invariant
                k <= i <= n - 1,
                n == src.len(),
                dv == src.deep_view(),
                addr.deep_view() == dv.subrange(k as int, i as int),
            decreases n - i,
        {
            let ghost pre = addr;
            let x = src[i].clone();
            proof {
                assert(x == src@[i as int]);
                assert(dv[i as int] == src@[i as int].deep_view());
            }
            addr.push(x);
            proof {
                lemma_deep_view_push(addr, pre, x);
                assert(addr.deep_view() =~= dv.subrange(k as int, i + 1));
            }
            i = i + 1;
        }
        proof {
            assert(addr.deep_view() =~= rel.drop_last());
        }
        if !is_index {
            let ghost pre = addr;
            let ghost stem_val = stem;
            addr.push(stem);
            proof {
                lemma_deep_view_push(addr, pre, stem_val);
                assert(addr.deep_view() =~= rel.drop_last().push(spec_stem(rel.last())));
            }
        }
        proof {
            assert(addr.deep_view() == address_parts(rel));
        }

        let uri = uri_string(&addr);
        proof {
            lemma_uri_rooted(addr.deep_view());
        }

        let mut out: Vec<String> = Vec::new();
        proof {
            assert(out.deep_view() =~= Seq::<Seq<char>>::empty());
        }
        append_parts(&mut out, out_dir);
        proof {
            assert(out.deep_view() =~= out_dir.deep_view());
        }
        append_parts(&mut out, &addr);
        let ghost pre = out;
        let last = String::from_str("index.html");
        let ghost last_val = last;
        out.push(last);
        proof {
            lemma_deep_view_push(out, pre, last_val);
            assert(out.deep_view() =~= out_parts(out_dir.deep_view(), address_parts(rel)));
        }

        PageTriple { src, out, uri }
    }
}

} // verus!
