use vstd::prelude::*;

verus! {

/// One heading found in a converted document, in document order.
pub struct HeadingRecord {
    /// Stem of the document the heading belongs to.
    pub filename: String,
    /// Anchor id of the heading, when the document exposes one.
    pub id: Option<String>,
    /// Text shown for the heading.
    pub title: String,
    /// Heading level, 1 for `h1`.
    pub level: u8,
}

/// Mathematical model of a table-of-contents node.
pub struct NodeV {
    pub dummy: bool,
    pub filename: Seq<char>,
    pub id: Option<Seq<char>>,
    pub title: Seq<char>,
    pub level: nat,
    pub children: Seq<NodeV>,
}

pub open spec fn opt_view(o: Option<String>) -> Option<Seq<char>> {
    match o {
        Some(s) => Some(s@),
        None => None,
    }
}

/// The node a heading record becomes: a real node without children.
pub open spec fn leaf(r: HeadingRecord) -> NodeV {
    NodeV {
        dummy: false,
        filename: r.filename@,
        id: opt_view(r.id),
        title: r.title@,
        level: r.level as nat,
        children: Seq::empty(),
    }
}

/// A synthetic node that stands for a heading level that was skipped.
pub open spec fn placeholder(level: nat) -> NodeV {
    NodeV {
        dummy: true,
        filename: Seq::empty(),
        id: None,
        title: Seq::empty(),
        level,
        children: Seq::empty(),
    }
}

/// `node` with `item` appended `d` levels below it, along the path of last
/// children; missing nodes on that path are filled in with placeholders.
pub open spec fn descend(node: NodeV, d: nat, item: NodeV) -> NodeV
    decreases d,
{
    if d <= 1 {
        NodeV { children: node.children.push(item), ..node }
    } else {
        let ch = node.children;
        let child = if ch.len() == 0 {
            placeholder((item.level - (d - 1)) as nat)
        } else {
            ch.last()
        };
        let rest = if ch.len() == 0 {
            ch
        } else {
            ch.drop_last()
        };
        NodeV { children: rest.push(descend(child, (d - 1) as nat, item)), ..node }
    }
}

/// The forest after one more node arrives. The last top-level node carries the
/// shallowest level seen so far; a node at that level or shallower starts a new
/// top-level entry, a deeper one goes as many levels below it as its level is deeper.
pub open spec fn push_node(f: Seq<NodeV>, item: NodeV) -> Seq<NodeV> {
    if f.len() == 0 || item.level <= f.last().level {
        f.push(item)
    } else {
        f.drop_last().push(descend(f.last(), (item.level - f.last().level) as nat, item))
    }
}

/// The forest built from a sequence of heading records.
pub open spec fn build_forest(rs: Seq<HeadingRecord>) -> Seq<NodeV>
    decreases rs.len(),
{
    if rs.len() == 0 {
        Seq::empty()
    } else {
        push_node(build_forest(rs.drop_last()), leaf(rs.last()))
    }
}

pub open spec fn max_nat(a: nat, b: nat) -> nat {
    if a >= b {
        a
    } else {
        b
    }
}

/// Number of nodes on the longest path from `n` down to a leaf.
pub open spec fn node_depth(n: NodeV) -> nat
    decreases n,
{
    1 + forest_depth(n.children)
}

/// Number of nodes on the longest path from a top-level node down to a leaf.
pub open spec fn forest_depth(f: Seq<NodeV>) -> nat
    decreases f,
{
    if f.len() == 0 {
        0
    } else {
        max_nat(forest_depth(f.drop_last()), node_depth(f.last()))
    }
}

/// The shallowest level among the records.
pub open spec fn min_level(rs: Seq<HeadingRecord>) -> nat
    decreases rs.len(),
{
    if rs.len() <= 1 {
        if rs.len() == 0 {
            0
        } else {
            rs[0].level as nat
        }
    } else if (rs.last().level as nat) < min_level(rs.drop_last()) {
        rs.last().level as nat
    } else {
        min_level(rs.drop_last())
    }
}

/// The largest nesting the records ask for: each record nests one level for each
/// level it lies below the shallowest level seen up to it.
pub open spec fn relative_depth(rs: Seq<HeadingRecord>) -> nat
    decreases rs.len(),
{
    if rs.len() == 0 {
        0
    } else {
        max_nat(
            relative_depth(rs.drop_last()),
            (rs.last().level - min_level(rs) + 1) as nat,
        )
    }
}

pub proof fn lemma_forest_depth_push(f: Seq<NodeV>, x: NodeV)
    ensures
        forest_depth(f.push(x)) == max_nat(forest_depth(f), node_depth(x)),
{
    assert(f.push(x).drop_last() =~= f);
    assert(f.push(x).last() == x);
}

pub proof fn lemma_descend_depth(node: NodeV, d: nat, item: NodeV)
    requires
        d >= 1,
        item.children.len() == 0,
    ensures
        node_depth(descend(node, d, item)) == max_nat(node_depth(node), d + 1),
        descend(node, d, item).level == node.level,
    decreases d,
{
    let ch = node.children;
    assert(forest_depth(item.children) == 0);
    assert(node_depth(item) == 1);
    if d <= 1 {
        lemma_forest_depth_push(ch, item);
    } else {
        let child = if ch.len() == 0 {
            placeholder((item.level - (d - 1)) as nat)
        } else {
            ch.last()
        };
        let rest = if ch.len() == 0 {
            ch
        } else {
            ch.drop_last()
        };
        lemma_descend_depth(child, (d - 1) as nat, item);
        lemma_forest_depth_push(rest, descend(child, (d - 1) as nat, item));
        if ch.len() == 0 {
            assert(forest_depth(placeholder((item.level - (d - 1)) as nat).children) == 0);
        } else {
            assert(forest_depth(ch) == max_nat(forest_depth(rest), node_depth(child)));
        }
    }
}

pub proof fn lemma_build_forest(rs: Seq<HeadingRecord>)
    ensures
        forest_depth(build_forest(rs)) == relative_depth(rs),
        rs.len() > 0 ==> build_forest(rs).len() > 0 && build_forest(rs).last().level == min_level(
            rs,
        ),
    decreases rs.len(),
{
    if rs.len() > 0 {
        let prev = rs.drop_last();
        let f = build_forest(prev);
        let item = leaf(rs.last());
        lemma_build_forest(prev);
        assert(forest_depth(item.children) == 0);
        if f.len() == 0 || item.level <= f.last().level {
            lemma_forest_depth_push(f, item);
        } else {
            let d = (item.level - f.last().level) as nat;
            lemma_descend_depth(f.last(), d, item);
            lemma_forest_depth_push(f.drop_last(), descend(f.last(), d, item));
            assert(forest_depth(f) == max_nat(forest_depth(f.drop_last()), node_depth(f.last())));
        }
    }
}

/// The table of contents nests each heading as far below the last top-level
/// entry as its level lies below the shallowest level seen so far, never by its
/// raw level: the forest is exactly as deep as the relative levels ask.
pub proof fn toc_depth_follows_relative_levels(rs: Seq<HeadingRecord>)
    ensures
        forest_depth(build_forest(rs)) == relative_depth(rs),
{
    lemma_build_forest(rs);
}


/// One entry of the table of contents.
pub struct ToCItem {
    is_dummy: bool,
    filename: String,
    id: Option<String>,
    title: String,
    level: u8,
    inner_items: Vec<ToCItem>,
}

/// The table of contents: a forest of entries.
pub struct ToC {
    inner_items: Vec<ToCItem>,
}

pub closed spec fn model_of(t: ToCItem) -> NodeV
    decreases t,
{
    NodeV {
        dummy: t.is_dummy,
        filename: t.filename@,
        id: opt_view(t.id),
        title: t.title@,
        level: t.level as nat,
        children: Seq::new(
            t.inner_items@.len(),
            |i: int|
                if 0 <= i < t.inner_items@.len() {
                    model_of(t.inner_items@[i])
                } else {
                    placeholder(0)
                },
        ),
    }
}

pub open spec fn models_of(v: Seq<ToCItem>) -> Seq<NodeV> {
    Seq::new(v.len(), |i: int| model_of(v[i]))
}

proof fn lemma_children_model(t: ToCItem)
    ensures
        model_of(t).children == models_of(t.inner_items@),
{
    assert(model_of(t).children =~= models_of(t.inner_items@));
}

proof fn lemma_models_push(v: Seq<ToCItem>, x: ToCItem)
    ensures
        models_of(v.push(x)) == models_of(v).push(model_of(x)),
{
    assert(models_of(v.push(x)) =~= models_of(v).push(model_of(x)));
}

proof fn lemma_models_drop_last(v: Seq<ToCItem>)
    requires
        v.len() > 0,
    ensures
        models_of(v.drop_last()) == models_of(v).drop_last(),
        models_of(v).last() == model_of(v.last()),
{
    assert(models_of(v.drop_last()) =~= models_of(v).drop_last());
}

pub fn clone_opt(o: &Option<String>) -> (r: Option<String>)
    ensures
        opt_view(r) == opt_view(*o),
{
    match o {
        Some(s) => Some(s.clone()),
        None => None,
    }
}

impl HeadingRecord {
    /// The entry this record becomes in the table of contents.
    pub fn to_item(&self) -> (r: ToCItem)
        ensures
            model_of(r) == leaf(*self),
    {
        let r = ToCItem {
            is_dummy: false,
            filename: self.filename.clone(),
            id: clone_opt(&self.id),
            title: self.title.clone(),
            level: self.level,
            inner_items: Vec::new(),
        };
        assert(model_of(r).children =~= Seq::<NodeV>::empty());
        r
    }
}

impl ToCItem {
    fn placeholder(level: u8) -> (r: ToCItem)
        ensures
            model_of(r) == placeholder(level as nat),
    {
        let r = ToCItem {
            is_dummy: true,
            filename: String::new(),
            id: None,
            title: String::new(),
            level,
            inner_items: Vec::new(),
        };
        assert(model_of(r).children =~= Seq::<NodeV>::empty());
        assert(model_of(r).filename =~= Seq::<char>::empty());
        r
    }

    /// Appends `item` `d` levels below this entry, along the path of last children.
    fn descend(&mut self, d: u8, item: ToCItem)
        requires
            1 <= d,
            d <= item.level + 1,
            model_of(item).children.len() == 0,
        ensures
            model_of(*final(self)) == descend(model_of(*old(self)), d as nat, model_of(item)),
        decreases d,
    {
        proof {
            lemma_children_model(*old(self));
        }
        if d <= 1 {
            self.inner_items.push(item);
            proof {
                lemma_children_model(*self);
                lemma_models_push(old(self).inner_items@, item);
                assert(model_of(*self) =~= descend(model_of(*old(self)), d as nat, model_of(item)));
            }
        } else {
            let mut child = if self.inner_items.len() == 0 {
                ToCItem::placeholder(item.level - (d - 1))
            } else {
                proof {
                    lemma_models_drop_last(self.inner_items@);
                }
                self.inner_items.pop().unwrap()
            };
            let ghost rest = self.inner_items@;
            let ghost child0 = child;
            child.descend(d - 1, item);
            self.inner_items.push(child);
            proof {
                lemma_children_model(*self);
                lemma_models_push(rest, child);
                assert(model_of(*self) =~= descend(model_of(*old(self)), d as nat, model_of(item)));
            }
        }
    }
}

impl ToC {
    pub closed spec fn model(self) -> Seq<NodeV> {
        models_of(self.inner_items@)
    }

    /// Adds one entry, placed by its level relative to the entries before it.
    pub fn push(&mut self, toc_item: ToCItem)
        requires
            model_of(toc_item).children.len() == 0,
        ensures
            final(self).model() == push_node(old(self).model(), model_of(toc_item)),
    {
        let n = self.inner_items.len();
        if n == 0 || toc_item.level <= self.inner_items[n - 1].level {
            self.inner_items.push(toc_item);
            proof {
                lemma_models_push(old(self).inner_items@, toc_item);
            }
        } else {
            proof {
                lemma_models_drop_last(self.inner_items@);
            }
            let mut top = self.inner_items.pop().unwrap();
            let ghost rest = self.inner_items@;
            let d = toc_item.level - top.level;
            top.descend(d, toc_item);
            self.inner_items.push(top);
            proof {
                lemma_models_push(rest, top);
            }
        }
    }

    /// Builds the table of contents from the headings of a book, in document order.
    pub fn new(records: &Vec<HeadingRecord>) -> (r: ToC)
        ensures
            r.model() == build_forest(records@),
    {
        let mut origin = ToC { inner_items: Vec::new() };
        assert(origin.model() =~= Seq::<NodeV>::empty());
        let mut i: usize = 0;
        while i < records.len()
            invariant
                i <= records@.len(),
                origin.model() == build_forest(records@.take(i as int)),
            decreases records@.len() - i,
        {
            let item = records[i].to_item();
            origin.push(item);
            assert(records@.take(i as int + 1).drop_last() =~= records@.take(i as int));
            i = i + 1;
        }
        assert(records@.take(i as int) =~= records@);
        origin
    }
}

/// Link to the vertical-writing stylesheet, placed in a document's head.
pub open spec fn vertical_link() -> Seq<char> {
    "<link type=\"text/css\" rel=\"stylesheet\" href=\"styles/vertical.css\" />"@
}

/// What an entry shows: nothing for a placeholder, a link when the heading has
/// an anchor, plain text otherwise.
pub open spec fn entry_title(n: NodeV) -> Seq<char> {
    if n.dummy {
        Seq::empty()
    } else {
        match n.id {
            Some(id) => "<a href=\""@ + n.filename + ".xhtml#"@ + id + "\">"@ + n.title + "</a>"@,
            None => "<span>"@ + n.title + "</span>"@,
        }
    }
}

/// One entry as a list item; its children form a nested list, hidden once the
/// entry's level reaches `collapse`.
pub open spec fn nav_node(n: NodeV, collapse: nat) -> Seq<char>
    decreases n,
{
    let inner = nav_forest(n.children, collapse);
    let list = if n.children.len() == 0 {
        Seq::empty()
    } else if n.level >= collapse {
        "<ol hidden=\"hidden\">"@ + inner + "</ol>"@
    } else {
        "<ol>"@ + inner + "</ol>"@
    };
    "<li>\n"@ + entry_title(n) + "\n"@ + list + "\n</li>\n"@
}

/// The entries of a forest, one after another.
pub open spec fn nav_forest(f: Seq<NodeV>, collapse: nat) -> Seq<char>
    decreases f,
{
    if f.len() == 0 {
        Seq::empty()
    } else {
        nav_forest(f.drop_last(), collapse) + nav_node(f.last(), collapse)
    }
}

/// The navigation document around a rendered forest.
pub open spec fn nav_document(f: Seq<NodeV>, collapse: nat, vertical: bool, title: Seq<char>) -> Seq<
    char,
> {
    "<?xml version=\"1.0\" encoding=\"UTF-8\"?>\n<!DOCTYPE html>\n<html xmlns=\"http://www.w3.org/1999/xhtml\" xmlns:epub=\"http://www.idpf.org/2007/ops\">\n<head>\n<meta charset=\"UTF-8\" />\n<title>"@
        + title + "</title>\n"@ + (if vertical {
        vertical_link()
    } else {
        Seq::empty()
    }) + "\n</head>\n<body>\n<nav epub:type=\"toc\" id=\"toc\">\n<h1>"@ + title
        + "</h1>\n<ol>\n"@ + nav_forest(f, collapse) + "</ol>\n</nav>\n</body>\n</html>\n"@
}

proof fn lemma_nav_forest_take(f: Seq<NodeV>, collapse: nat, i: int)
    requires
        0 <= i < f.len(),
    ensures
        nav_forest(f.take(i + 1), collapse) == nav_forest(f.take(i), collapse) + nav_node(
            f[i],
            collapse,
        ),
{
    assert(f.take(i + 1).drop_last() =~= f.take(i));
}

fn render_entries(items: &Vec<ToCItem>, level: u8) -> (r: String)
    ensures
        r@ == nav_forest(models_of(items@), level as nat),
    decreases items@, 0nat,
{
    let mut r = String::new();
    let mut i: usize = 0;
    assert(models_of(items@).take(0) =~= Seq::<NodeV>::empty());
    while i < items.len()
        invariant
            i <= items@.len(),
            r@ == nav_forest(models_of(items@).take(i as int), level as nat),
        decreases items@.len() - i,
    {
        proof {
            lemma_nav_forest_take(models_of(items@), level as nat, i as int);
        }
        let entry = items[i].to_nav(level);
        r.append(entry.as_str());
        i = i + 1;
    }
    assert(models_of(items@).take(i as int) =~= models_of(items@));
    r
}

impl ToCItem {
    /// Renders the entry and its children as a list item of the navigation
    /// document; children of an entry whose level reaches `level` are hidden.
    pub fn to_nav(&self, level: u8) -> (r: String)
        ensures
            r@ == nav_node(model_of(*self), level as nat),
        decreases *self, 1nat,
    {
        proof {
            lemma_children_model(*self);
        }
        let mut title = String::new();
        if !self.is_dummy {
            match &self.id {
                Some(id) => {
                    title.append("<a href=\"");
                    title.append(self.filename.as_str());
                    title.append(".xhtml#");
                    title.append(id.as_str());
                    title.append("\">");
                    title.append(self.title.as_str());
                    title.append("</a>");
                },
                None => {
                    title.append("<span>");
                    title.append(self.title.as_str());
                    title.append("</span>");
                },
            }
        }
        let inners = render_entries(&self.inner_items, level);
        let mut list = String::new();
        if self.inner_items.len() > 0 {
            if self.level >= level {
                list.append("<ol hidden=\"hidden\">");
            } else {
                list.append("<ol>");
            }
            list.append(inners.as_str());
            list.append("</ol>");
        }
        let mut r = String::new();
        r.append("<li>\n");
        r.append(title.as_str());
        r.append("\n");
        r.append(list.as_str());
        r.append("\n</li>\n");
        assert(title@ =~= entry_title(model_of(*self)));
        assert(r@ =~= nav_node(model_of(*self), level as nat));
        r
    }
}

impl ToC {
    /// Renders the navigation document; `level` is the level from which entries
    /// start with their children hidden.
    pub fn to_nav(&self, level: u8, vertical: bool, title: Option<String>) -> (r: String)
        ensures
            r@ == nav_document(
                self.model(),
                level as nat,
                vertical,
                match title {
                    Some(t) => t@,
                    None => Seq::empty(),
                },
            ),
    {
        let inners = render_entries(&self.inner_items, level);
        let title = match title {
            Some(t) => t,
            None => String::new(),
        };
        let mut r = String::new();
        r.append("<?xml version=\"1.0\" encoding=\"UTF-8\"?>\n<!DOCTYPE html>\n<html xmlns=\"http://www.w3.org/1999/xhtml\" xmlns:epub=\"http://www.idpf.org/2007/ops\">\n<head>\n<meta charset=\"UTF-8\" />\n<title>");
        r.append(title.as_str());
        r.append("</title>\n");
        if vertical {
            r.append("<link type=\"text/css\" rel=\"stylesheet\" href=\"styles/vertical.css\" />");
        }
        r.append("\n</head>\n<body>\n<nav epub:type=\"toc\" id=\"toc\">\n<h1>");
        r.append(title.as_str());
        r.append("</h1>\n<ol>\n");
        r.append(inners.as_str());
        r.append("</ol>\n</nav>\n</body>\n</html>\n");
        r
    }
}

} // verus!
