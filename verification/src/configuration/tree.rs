//! The resolved object tree: the substitution-free data model a resolution
//! pass produces from the parsed statements, and the read-only queries
//! defined over it.

use super::Position;
use vstd::prelude::*;

verus! {

broadcast use vstd::std_specs::vec::group_vec_axioms;

/// The whole resolved tree: one definition per declared variable or system
/// name.  Duplicate keys are kept as they are.
pub struct Tree(pub Vec<Definition>);

/// One definition: a key bound to a resolved object value.
pub struct Definition {
    pub position: Position,
    pub key: DefinitionKey,
    pub value: Object,
}

/// The key of a definition.
#[derive(Debug)]
pub enum DefinitionKey {
    SystemRelease,
    SystemRun,
    SystemTest,
    Variable(String),
}

/// One node of the resolved value tree.
#[derive(Debug, PartialEq)]
pub struct Object {
    pub position: Position,
    pub value: ObjectValue,
}

/// The value of a resolved node.
#[derive(Debug, PartialEq)]
pub enum ObjectValue {
    /// Keyed children, typically directory entries.
    Aggregation(Vec<(String, Object)>),
    /// Ordered children merged together.
    Composition(Vec<Object>),
    /// A generator applied to an input object.
    Pipe(Pipe),
    /// A leaf: literal file content.
    Literal(String),
    /// A leaf: a variable reference.
    Variable(String),
}

/// A generator applied to an input object.
#[derive(Debug, PartialEq)]
pub struct Pipe {
    pub input: Box<Object>,
    pub generator: Generator,
    pub output_is_dir: bool,
}

/// The resolved generator reference of a pipe.
#[derive(Debug, PartialEq)]
pub enum Generator {
    /// An external generator URL.
    Url(String),
    /// A generator from the source filesystem.
    Path(String),
    /// A default generator alias with its fallback URL.
    Default(GeneratorDefault),
    /// A generator bound to a variable.
    Variable(String),
}

/// A default generator alias and the URL used when no default is registered
/// under that alias.
#[derive(Debug, PartialEq)]
pub struct GeneratorDefault {
    pub default_name: String,
    pub url: String,
}

/// The pre-order traversal of an object: the node itself, then its children.
pub open spec fn preorder(o: Object) -> Seq<Object>
    decreases o,
{
    seq![o] + (match o.value {
        ObjectValue::Aggregation(list) => preorder_agg(list@),
        ObjectValue::Composition(list) => preorder_list(list@),
        ObjectValue::Pipe(p) => preorder(*p.input),
        ObjectValue::Literal(_) => Seq::empty(),
        ObjectValue::Variable(_) => Seq::empty(),
    })
}

pub open spec fn preorder_agg(s: Seq<(String, Object)>) -> Seq<Object>
    decreases s,
{
    if s.len() == 0 {
        Seq::empty()
    } else {
        preorder(s[0].1) + preorder_agg(s.drop_first())
    }
}

pub open spec fn preorder_list(s: Seq<Object>) -> Seq<Object>
    decreases s,
{
    if s.len() == 0 {
        Seq::empty()
    } else {
        preorder(s[0]) + preorder_list(s.drop_first())
    }
}

proof fn lemma_preorder_agg_snoc(s: Seq<(String, Object)>, x: (String, Object))
    ensures
        preorder_agg(s.push(x)) == preorder_agg(s) + preorder(x.1),
    decreases s.len(),
{
    if s.len() == 0 {
        assert(s.push(x)[0] == x);
        assert(s.push(x).drop_first() =~= Seq::<(String, Object)>::empty());
        assert(preorder_agg(Seq::<(String, Object)>::empty()) == Seq::<Object>::empty());
        assert(preorder_agg(s.push(x)) == preorder(x.1) + Seq::<Object>::empty());
        assert(preorder(x.1) + Seq::<Object>::empty() =~= preorder(x.1));
        assert(preorder_agg(s) + preorder(x.1) =~= preorder(x.1));
    } else {
        assert(s.push(x)[0] == s[0]);
        assert(s.push(x).drop_first() =~= s.drop_first().push(x));
        lemma_preorder_agg_snoc(s.drop_first(), x);
        assert(preorder_agg(s.push(x)) == preorder(s[0].1) + preorder_agg(s.drop_first().push(x)));
        assert(preorder(s[0].1) + (preorder_agg(s.drop_first()) + preorder(x.1)) =~= (preorder(
            s[0].1,
        ) + preorder_agg(s.drop_first())) + preorder(x.1));
    }
}

proof fn lemma_preorder_list_snoc(s: Seq<Object>, x: Object)
    ensures
        preorder_list(s.push(x)) == preorder_list(s) + preorder(x),
    decreases s.len(),
{
    if s.len() == 0 {
        assert(s.push(x)[0] == x);
        assert(s.push(x).drop_first() =~= Seq::<Object>::empty());
        assert(preorder_list(Seq::<Object>::empty()) == Seq::<Object>::empty());
        assert(preorder_list(s.push(x)) == preorder(x) + Seq::<Object>::empty());
        assert(preorder(x) + Seq::<Object>::empty() =~= preorder(x));
        assert(preorder_list(s) + preorder(x) =~= preorder(x));
    } else {
        assert(s.push(x)[0] == s[0]);
        assert(s.push(x).drop_first() =~= s.drop_first().push(x));
        lemma_preorder_list_snoc(s.drop_first(), x);
        assert(preorder_list(s.push(x)) == preorder(s[0]) + preorder_list(s.drop_first().push(x)));
        assert(preorder(s[0]) + (preorder_list(s.drop_first()) + preorder(x)) =~= (preorder(s[0])
            + preorder_list(s.drop_first())) + preorder(x));
    }
}

impl Object {
    /// Collect every node of the object tree, in pre-order.  Two runs over
    /// an unmodified tree visit the same nodes in the same order: the result
    /// is a function of the tree alone.
    pub fn collect(&self) -> (r: Vec<&Object>)
        ensures
            r@.map_values(|x: &Object| *x) == preorder(*self),
    {
        let mut out: Vec<&Object> = Vec::new();
        proof {
            assert(out@.map_values(|x: &Object| *x) =~= Seq::<Object>::empty());
        }
        self.walk_inter(&mut out);
        proof {
            assert(Seq::<Object>::empty() + preorder(*self) =~= preorder(*self));
        }
        out
    }

    /// Walk over each node of the object tree, in pre-order.  The sequence
    /// of visited nodes is a function of the tree alone, so re-running the
    /// walk always yields the same sequence.
    pub fn walk(&self) -> (r: Vec<&Object>)
        ensures
            r@.map_values(|x: &Object| *x) == preorder(*self),
    {
        self.collect()
    }

    /// Append the pre-order traversal of this subtree to `out`.
    fn walk_inter<'a>(&'a self, out: &mut Vec<&'a Object>)
        ensures
            final(out)@.map_values(|x: &Object| *x) == old(out)@.map_values(|x: &Object| *x)
                + preorder(*self),
        decreases *self,
    {
        let ghost out0 = old(out)@.map_values(|x: &Object| *x);
        out.push(self);
        proof {
            assert(out@.map_values(|x: &Object| *x) =~= out0 + seq![*self]);
        }
        match &self.value {
            ObjectValue::Aggregation(list) => {
                let mut i: usize = 0;
                while i < list.len()
                    invariant
                        self.value == ObjectValue::Aggregation(*list),
                        i <= list@.len(),
                        out@.map_values(|x: &Object| *x) == out0 + seq![*self] + preorder_agg(
                            list@.take(i as int),
                        ),
                    decreases list@.len() - i,
                {
                    proof {
                        assert(list@.take(i + 1) =~= list@.take(i as int).push(list@[i as int]));
                        lemma_preorder_agg_snoc(list@.take(i as int), list@[i as int]);
                        assert(decreases_to!(*self => self.value));
                        assert(decreases_to!(self.value => self.value->Aggregation_0));
                        assert(self.value->Aggregation_0 == *list);
                        assert(decreases_to!(*list => list@));
                        assert(decreases_to!(list@ => list@[i as int]));
                        assert(decreases_to!(list@[i as int] => list@[i as int].1));
                    }
                    list[i].1.walk_inter(out);
                    proof {
                        assert((out0 + seq![*self] + preorder_agg(list@.take(i as int))) + preorder(
                            list@[i as int].1,
                        ) =~= out0 + seq![*self] + (preorder_agg(list@.take(i as int)) + preorder(
                            list@[i as int].1,
                        )));
                    }
                    i = i + 1;
                }
                proof {
                    assert(list@.take(list@.len() as int) =~= list@);
                    assert(out0 + seq![*self] + preorder_agg(list@) =~= out0 + (seq![*self]
                        + preorder_agg(list@)));
                }
            },
            ObjectValue::Composition(list) => {
                let mut i: usize = 0;
                while i < list.len()
                    invariant
                        self.value == ObjectValue::Composition(*list),
                        i <= list@.len(),
                        out@.map_values(|x: &Object| *x) == out0 + seq![*self] + preorder_list(
                            list@.take(i as int),
                        ),
                    decreases list@.len() - i,
                {
                    proof {
                        assert(list@.take(i + 1) =~= list@.take(i as int).push(list@[i as int]));
                        lemma_preorder_list_snoc(list@.take(i as int), list@[i as int]);
                        assert(decreases_to!(*self => self.value));
                        assert(decreases_to!(self.value => self.value->Composition_0));
                        assert(self.value->Composition_0 == *list);
                        assert(decreases_to!(*list => list@));
                        assert(decreases_to!(list@ => list@[i as int]));
                    }
                    list[i].walk_inter(out);
                    proof {
                        assert((out0 + seq![*self] + preorder_list(list@.take(i as int)))
                            + preorder(list@[i as int]) =~= out0 + seq![*self] + (preorder_list(
                            list@.take(i as int),
                        ) + preorder(list@[i as int])));
                    }
                    i = i + 1;
                }
                proof {
                    assert(list@.take(list@.len() as int) =~= list@);
                    assert(out0 + seq![*self] + preorder_list(list@) =~= out0 + (seq![*self]
                        + preorder_list(list@)));
                }
            },
            ObjectValue::Pipe(p) => {
                p.input.walk_inter(out);
                proof {
                    assert((out0 + seq![*self]) + preorder(*p.input) =~= out0 + (seq![*self]
                        + preorder(*p.input)));
                }
            },
            ObjectValue::Literal(_) => {
                proof {
                    assert(out0 + seq![*self] =~= out0 + (seq![*self] + Seq::<Object>::empty()));
                }
            },
            ObjectValue::Variable(_) => {
                proof {
                    assert(out0 + seq![*self] =~= out0 + (seq![*self] + Seq::<Object>::empty()));
                }
            },
        }
    }
}

/// The URL registered in `defaults` under `name`: the first pair with that
/// name wins.
pub open spec fn lookup_default(defaults: Seq<(String, String)>, name: Seq<char>) -> Option<
    Seq<char>,
>
    decreases defaults.len(),
{
    if defaults.len() == 0 {
        None
    } else if defaults[0].0@ == name {
        Some(defaults[0].1@)
    } else {
        lookup_default(defaults.drop_first(), name)
    }
}

/// The URL a pipe's generator requires to be fetched, if any: an explicit
/// URL, or for a default generator alias the registered URL when one exists,
/// else the fallback URL of the stage; variables and paths are not fetched.
pub open spec fn pipe_url(g: Generator, defaults: Seq<(String, String)>) -> Option<Seq<char>> {
    match g {
        Generator::Url(u) => Some(u@),
        Generator::Default(d) => Some(
            match lookup_default(defaults, d.default_name@) {
                Some(u) => u,
                None => d.url@,
            },
        ),
        Generator::Path(_) => None,
        Generator::Variable(_) => None,
    }
}

/// The set of generator URLs of the nodes of `objs`.
pub open spec fn urls_of(objs: Seq<Object>, defaults: Seq<(String, String)>) -> Set<Seq<char>>
    decreases objs.len(),
{
    if objs.len() == 0 {
        Set::empty()
    } else {
        let rest = urls_of(objs.drop_first(), defaults);
        match objs[0].value {
            ObjectValue::Pipe(p) => match pipe_url(p.generator, defaults) {
                Some(u) => rest.insert(u),
                None => rest,
            },
            _ => rest,
        }
    }
}

/// The set of generator URLs of the whole tree.
pub open spec fn tree_urls(defs: Seq<Definition>, defaults: Seq<(String, String)>) -> Set<
    Seq<char>,
>
    decreases defs.len(),
{
    if defs.len() == 0 {
        Set::empty()
    } else {
        urls_of(preorder(defs[0].value), defaults) + tree_urls(defs.drop_first(), defaults)
    }
}

proof fn lemma_urls_of_snoc(objs: Seq<Object>, x: Object, defaults: Seq<(String, String)>)
    ensures
        urls_of(objs.push(x), defaults) == urls_of(objs, defaults) + urls_of(seq![x], defaults),
    decreases objs.len(),
{
    if objs.len() == 0 {
        assert(objs.push(x) =~= seq![x]);
        assert(seq![x].drop_first() =~= Seq::<Object>::empty());
        assert(seq![x][0] == x);
        assert(urls_of(Seq::<Object>::empty(), defaults) == Set::<Seq<char>>::empty());
        assert(urls_of(objs, defaults) == Set::<Seq<char>>::empty());
        assert(urls_of(objs.push(x), defaults) =~= urls_of(objs, defaults) + urls_of(
            seq![x],
            defaults,
        ));
    } else {
        assert(objs.push(x)[0] == objs[0]);
        assert(objs.push(x).drop_first() =~= objs.drop_first().push(x));
        lemma_urls_of_snoc(objs.drop_first(), x, defaults);
        assert(seq![x].drop_first() =~= Seq::<Object>::empty());
        assert(seq![x][0] == x);
        assert(urls_of(objs.push(x), defaults) =~= urls_of(objs, defaults) + urls_of(
            seq![x],
            defaults,
        ));
    }
}

proof fn lemma_urls_of_single(x: Object, defaults: Seq<(String, String)>)
    ensures
        urls_of(seq![x], defaults) == (match x.value {
            ObjectValue::Pipe(p) => match pipe_url(p.generator, defaults) {
                Some(u) => Set::<Seq<char>>::empty().insert(u),
                None => Set::<Seq<char>>::empty(),
            },
            _ => Set::<Seq<char>>::empty(),
        }),
{
    assert(seq![x][0] == x);
    assert(seq![x].drop_first() =~= Seq::<Object>::empty());
    assert(urls_of(Seq::<Object>::empty(), defaults) == Set::<Seq<char>>::empty());
}

/// Whether `v` holds a string whose characters are `u`.
pub open spec fn holds_string(v: Seq<String>, u: Seq<char>) -> bool {
    exists|k: int| 0 <= k < v.len() && v[k]@ == u
}

/// Whether the buffer `v` holds a string equal to `s`.
fn contains_string(v: &Vec<String>, s: &String) -> (r: bool)
    ensures
        r == holds_string(v@, s@),
{
    let mut i: usize = 0;
    while i < v.len()
        invariant
            i <= v@.len(),
            forall|k: int| 0 <= k < i ==> v@[k]@ != s@,
        decreases v@.len() - i,
    {
        if v[i].eq(s) {
            proof {
                assert(v@[i as int]@ == s@);
            }
            return true;
        }
        i = i + 1;
    }
    false
}

/// The first URL registered in `defaults` under `name`, if any.
fn lookup_default_exec<'a>(defaults: &'a Vec<(String, String)>, name: &String) -> (r: Option<
    &'a String,
>)
    ensures
        match r {
            Some(u) => lookup_default(defaults@, name@) == Some(u@),
            None => lookup_default(defaults@, name@) is None,
        },
{
    let mut i: usize = 0;
    proof {
        assert(defaults@.skip(0) =~= defaults@);
    }
    while i < defaults.len()
        invariant
            i <= defaults@.len(),
            lookup_default(defaults@, name@) == lookup_default(defaults@.skip(i as int), name@),
        decreases defaults@.len() - i,
    {
        proof {
            assert(defaults@.skip(i as int)[0] == defaults@[i as int]);
            assert(defaults@.skip(i as int).drop_first() =~= defaults@.skip(i + 1));
        }
        if defaults[i].0.eq(name) {
            return Some(&defaults[i].1);
        }
        i = i + 1;
    }
    proof {
        assert(defaults@.skip(defaults@.len() as int) =~= Seq::<(String, String)>::empty());
    }
    None
}

/// One walked node extends the collected prefix: when every URL the node
/// contributes is already collected, the collected strings characterize the
/// URLs of the prefix one node longer.
proof fn lemma_urls_iff_extend(
    out: Seq<String>,
    base: Set<Seq<char>>,
    pre: Seq<Object>,
    n: int,
    defaults: Seq<(String, String)>,
)
    requires
        0 <= n < pre.len(),
        forall|u: Seq<char>|
            holds_string(out, u) <==> (base.contains(u) || urls_of(pre.take(n), defaults).contains(
                u,
            )),
        forall|u: Seq<char>| urls_of(seq![pre[n]], defaults).contains(u) ==> holds_string(out, u),
    ensures
        forall|u: Seq<char>|
            holds_string(out, u) <==> (base.contains(u) || urls_of(
                pre.take(n + 1),
                defaults,
            ).contains(u)),
{
    assert(pre.take(n + 1) =~= pre.take(n).push(pre[n]));
    lemma_urls_of_snoc(pre.take(n), pre[n], defaults);
    assert forall|u: Seq<char>|
        holds_string(out, u) <==> (base.contains(u) || urls_of(pre.take(n + 1), defaults).contains(
            u,
        )) by {
        assert(urls_of(pre.take(n + 1), defaults).contains(u) <==> (urls_of(
            pre.take(n),
            defaults,
        ).contains(u) || urls_of(seq![pre[n]], defaults).contains(u)));
    }
}

impl Tree {
    /// The number of definitions of the tree.
    pub fn len(&self) -> (r: usize)
        ensures
            r == self.0@.len(),
    {
        self.0.len()
    }

    /// The number of definitions of the tree.
    pub fn number_of_definition(&self) -> (r: usize)
        ensures
            r == self.0@.len(),
    {
        self.0.len()
    }

    /// The URLs of all external generators of the tree: for every pipe, an
    /// explicit URL is kept, and a default generator alias resolves to the
    /// registered URL when the alias is in `default`, else to the stage's
    /// own fallback URL.  Duplicates are collapsed; each URL appears once.
    pub fn generator_url_list(&self, default: &Vec<(String, String)>) -> (r: Vec<String>)
        ensures
            forall|a: int, b: int| 0 <= a < b < r@.len() ==> r@[a]@ != r@[b]@,
            forall|u: Seq<char>| holds_string(r@, u) <==> tree_urls(self.0@, default@).contains(u),
    {
        let mut out: Vec<String> = Vec::new();
        let mut d: usize = 0;
        proof {
            assert(forall|u: Seq<char>| !holds_string(out@, u));
            assert(self.0@.take(0) =~= Seq::<Definition>::empty());
        }
        while d < self.0.len()
            invariant
                d <= self.0@.len(),
                forall|a: int, b: int| 0 <= a < b < out@.len() ==> out@[a]@ != out@[b]@,
                forall|u: Seq<char>|
                    holds_string(out@, u) <==> tree_urls(self.0@.take(d as int), default@).contains(
                        u,
                    ),
            decreases self.0@.len() - d,
        {
            let nodes = self.0[d].value.collect();
            let ghost pre = preorder(self.0@[d as int].value);
            let mut n: usize = 0;
            proof {
                assert(pre.take(0) =~= Seq::<Object>::empty());
            }
            while n < nodes.len()
                invariant
                    n <= nodes@.len(),
                    nodes@.map_values(|x: &Object| *x) == pre,
                    forall|a: int, b: int| 0 <= a < b < out@.len() ==> out@[a]@ != out@[b]@,
                    forall|u: Seq<char>|
                        holds_string(out@, u) <==> (tree_urls(
                            self.0@.take(d as int),
                            default@,
                        ).contains(u) || urls_of(pre.take(n as int), default@).contains(u)),
                decreases nodes@.len() - n,
            {
                proof {
                    assert(pre.take(n + 1) =~= pre.take(n as int).push(pre[n as int]));
                    lemma_urls_of_snoc(pre.take(n as int), pre[n as int], default@);
                    lemma_urls_of_single(pre[n as int], default@);
                    assert(nodes@.map_values(|x: &Object| *x)[n as int] == pre[n as int]);
                }
                let node = nodes[n];
                proof {
                    assert(*node == pre[n as int]);
                }
                match &node.value {
                    ObjectValue::Pipe(p) => {
                        proof {
                            assert(pre[n as int].value->Pipe_0 == *p);
                        }
                        let url: Option<String> = match &p.generator {
                            Generator::Url(u) => Some(u.clone()),
                            Generator::Default(gd) => match lookup_default_exec(
                                default,
                                &gd.default_name,
                            ) {
                                Some(u) => Some(u.clone()),
                                None => Some(gd.url.clone()),
                            },
                            Generator::Path(_) => None,
                            Generator::Variable(_) => None,
                        };
                        match url {
                            Some(u) => {
                                proof {
                                    assert(pipe_url(p.generator, default@) == Some(u@));
                                    assert(urls_of(seq![pre[n as int]], default@)
                                        == Set::<Seq<char>>::empty().insert(u@));
                                }
                                if !contains_string(&out, &u) {
                                    let ghost out_before = out@;
                                    out.push(u);
                                    proof {
                                        assert(forall|k: int|
                                            0 <= k < out_before.len() ==> out@[k] == out_before[k]);
                                        assert forall|a: int, b: int|
                                            0 <= a < b < out@.len() implies out@[a]@ != out@[b]@ by {
                                            if b == out@.len() - 1 {
                                                assert(out@[b]@ == u@);
                                                if out@[a]@ == u@ {
                                                    assert(holds_string(out_before, u@));
                                                }
                                            }
                                        }
                                        assert forall|w: Seq<char>|
                                            holds_string(out@, w) <==> (holds_string(
                                                out_before,
                                                w,
                                            ) || w == u@) by {
                                            if holds_string(out_before, w) {
                                                let k = choose|k: int|
                                                    0 <= k < out_before.len() && out_before[k]@
                                                        == w;
                                                assert(out@[k]@ == w);
                                            }
                                            if w == u@ {
                                                assert(out@[out@.len() - 1]@ == w);
                                            }
                                            if holds_string(out@, w) {
                                                let k = choose|k: int|
                                                    0 <= k < out@.len() && out@[k]@ == w;
                                                if k < out_before.len() {
                                                    assert(holds_string(out_before, w));
                                                } else {
                                                    assert(w == u@);
                                                }
                                            }
                                        }
                                    }
                                    proof {
                                        assert(pre.take(n + 1) == pre.take(n as int).push(
                                            pre[n as int],
                                        ));
                                        assert(urls_of(pre.take(n + 1), default@) == urls_of(
                                            pre.take(n as int),
                                            default@,
                                        ) + urls_of(seq![pre[n as int]], default@));
                                        assert forall|u2: Seq<char>|
                                        holds_string(out@, u2) <==> (tree_urls(
                                            self.0@.take(d as int),
                                            default@,
                                        ).contains(u2) || urls_of(pre.take(n + 1), default@).contains(
                                            u2,
                                        )) by {
                                        assert(holds_string(out@, u2) <==> (holds_string(
                                            out_before,
                                            u2,
                                        ) || u2 == u@));
                                        assert(urls_of(pre.take(n + 1), default@).contains(u2)
                                            <==> (urls_of(pre.take(n as int), default@).contains(u2)
                                            || urls_of(seq![pre[n as int]], default@).contains(u2)));
                                    }
                                }
                                } else {
                                    proof {
                                        assert(holds_string(out@, u@));
                                    }
                                    proof {
                                        lemma_urls_iff_extend(
                                            out@,
                                            tree_urls(self.0@.take(d as int), default@),
                                            pre,
                                            n as int,
                                            default@,
                                        );
                                    }
                                }
                            },
                            None => {
                                proof {
                                    assert(pipe_url(p.generator, default@) is None);
                                    assert(urls_of(seq![pre[n as int]], default@)
                                        == Set::<Seq<char>>::empty());
                                }
                                proof {
                                    lemma_urls_iff_extend(
                                        out@,
                                        tree_urls(self.0@.take(d as int), default@),
                                        pre,
                                        n as int,
                                        default@,
                                    );
                                }
                            },
                        }
                    },
                    _ => {
                        proof {
                            assert(!(pre[n as int].value is Pipe));
                            assert(urls_of(seq![pre[n as int]], default@)
                                == Set::<Seq<char>>::empty());
                        }
                        proof {
                                    lemma_urls_iff_extend(
                                        out@,
                                        tree_urls(self.0@.take(d as int), default@),
                                        pre,
                                        n as int,
                                        default@,
                                    );
                                }
                    },
                }
                n = n + 1;
            }
            proof {
                assert(pre.take(pre.len() as int) =~= pre);
                assert(self.0@.take(d + 1) =~= self.0@.take(d as int).push(self.0@[d as int]));
                lemma_tree_urls_snoc(self.0@.take(d as int), self.0@[d as int], default@);
            }
            d = d + 1;
        }
        proof {
            assert(self.0@.take(self.0@.len() as int) =~= self.0@);
        }
        out
    }
}

proof fn lemma_tree_urls_snoc(defs: Seq<Definition>, x: Definition, defaults: Seq<(String, String)>)
    ensures
        tree_urls(defs.push(x), defaults) == tree_urls(defs, defaults) + urls_of(
            preorder(x.value),
            defaults,
        ),
    decreases defs.len(),
{
    if defs.len() == 0 {
        assert(defs.push(x)[0] == x);
        assert(defs.push(x).drop_first() =~= Seq::<Definition>::empty());
        assert(tree_urls(Seq::<Definition>::empty(), defaults) == Set::<Seq<char>>::empty());
        assert(tree_urls(defs.push(x), defaults) == urls_of(preorder(x.value), defaults)
            + Set::<Seq<char>>::empty());
        assert(tree_urls(defs.push(x), defaults) =~= tree_urls(defs, defaults) + urls_of(
            preorder(x.value),
            defaults,
        ));
    } else {
        assert(defs.push(x)[0] == defs[0]);
        assert(defs.push(x).drop_first() =~= defs.drop_first().push(x));
        lemma_tree_urls_snoc(defs.drop_first(), x, defaults);
        assert(tree_urls(defs.push(x), defaults) == urls_of(preorder(defs[0].value), defaults)
            + tree_urls(defs.drop_first().push(x), defaults));
        assert(tree_urls(defs.push(x), defaults) =~= tree_urls(defs, defaults) + urls_of(
            preorder(x.value),
            defaults,
        ));
    }
}

} // verus!
