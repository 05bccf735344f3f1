use vstd::prelude::*;

verus! {

/// The sequence of views of a sequence of values, defined by recursion so
/// that facts about it unfold without closure reasoning.
pub open spec fn views_of<T: View>(s: Seq<T>) -> Seq<T::V>
    decreases s.len(),
{
    if s.len() == 0 {
        Seq::empty()
    } else {
        views_of(s.drop_last()).push(s.last().view())
    }
}

pub proof fn lemma_views_of_push<T: View>(s: Seq<T>, x: T)
    ensures
        views_of(s.push(x)) == views_of(s).push(x.view()),
{
    assert(s.push(x).drop_last() =~= s);
    assert(s.push(x).last() == x);
}

pub proof fn lemma_views_of_len<T: View>(s: Seq<T>)
    ensures
        views_of(s).len() == s.len(),
    decreases s.len(),
{
    if s.len() > 0 {
        lemma_views_of_len(s.drop_last());
    }
}

pub proof fn lemma_views_of_index<T: View>(s: Seq<T>, i: int)
    requires
        0 <= i < s.len(),
    ensures
        views_of(s).len() == s.len(),
        views_of(s)[i] == s[i].view(),
    decreases s.len(),
{
    lemma_views_of_len(s);
    if i < s.len() - 1 {
        lemma_views_of_index(s.drop_last(), i);
    }
}

pub proof fn lemma_views_of_add<T: View>(a: Seq<T>, b: Seq<T>)
    ensures
        views_of(a + b) == views_of(a) + views_of(b),
    decreases b.len(),
{
    if b.len() == 0 {
        assert(a + b =~= a);
        assert(views_of(a) + views_of(b) =~= views_of(a));
    } else {
        lemma_views_of_add(a, b.drop_last());
        assert((a + b).drop_last() =~= a + b.drop_last());
        assert((a + b).last() == b.last());
        assert(views_of(a) + views_of(b.drop_last()).push(b.last().view()) =~= (views_of(a)
            + views_of(b.drop_last())).push(b.last().view()));
        assert(views_of(b) == views_of(b.drop_last()).push(b.last().view()));
    }
}

pub proof fn lemma_views_of_singleton<T: View>(x: T)
    ensures
        views_of(seq![x]) == seq![x.view()],
{
    assert(seq![x].drop_last() =~= Seq::<T>::empty());
    assert(views_of(seq![x]) == views_of(Seq::<T>::empty()).push(x.view()));
    assert(views_of(Seq::<T>::empty()).push(x.view()) =~= seq![x.view()]);
}

/// Moves one element into a fresh vector, for building singleton error lists.
pub fn single<T: View>(e: T) -> (r: Vec<T>)
    ensures
        views_of(r@) == seq![e@],
        r@.len() == 1,
{
    let ghost ge = e;
    let mut v: Vec<T> = Vec::new();
    v.push(e);
    proof {
        assert(v@ =~= seq![ge]);
        lemma_views_of_singleton(ge);
    }
    v
}

pub proof fn lemma_views_of_drop_first<T: View>(s: Seq<T>)
    requires
        s.len() > 0,
    ensures
        views_of(s.drop_first()) == views_of(s).drop_first(),
{
    lemma_views_of_len(s);
    lemma_views_of_len(s.drop_first());
    assert forall|i: int| 0 <= i < s.len() - 1 implies views_of(s.drop_first())[i] == views_of(
        s,
    ).drop_first()[i] by {
        lemma_views_of_index(s.drop_first(), i);
        lemma_views_of_index(s, i + 1);
    }
    assert(views_of(s.drop_first()) =~= views_of(s).drop_first());
}

/// Copies a list of strings; the copy has the same views.
pub fn clone_strings(v: &Vec<String>) -> (r: Vec<String>)
    ensures
        views_of(r@) == views_of(v@),
{
    let mut out: Vec<String> = Vec::new();
    let mut i: usize = 0;
    proof {
        assert(v@.take(0int) =~= Seq::<String>::empty());
        assert(views_of(Seq::<String>::empty()) =~= Seq::<Seq<char>>::empty());
        assert(views_of(out@) =~= views_of(v@.take(0int)));
    }
    while i < v.len()
        invariant
            i <= v@.len(),
            views_of(out@) == views_of(v@.take(i as int)),
        decreases v@.len() - i,
    {
        let ghost prev = out@;
        let s = v[i].clone();
        let ghost gs = s;
        out.push(s);
        proof {
            lemma_views_of_push(prev, gs);
            lemma_take_push(v@, i as int);
            lemma_views_of_push(v@.take(i as int), v@[i as int]);
        }
        i += 1;
    }
    proof {
        lemma_take_all(v@);
    }
    out
}

/// A prefix one longer is the shorter prefix extended by the next element.
pub proof fn lemma_take_push<A>(s: Seq<A>, i: int)
    requires
        0 <= i < s.len(),
    ensures
        s.take(i + 1) == s.take(i).push(s[i]),
{
    assert(s.take(i + 1) =~= s.take(i).push(s[i]));
}

/// Taking the whole length is the sequence itself.
pub proof fn lemma_take_all<A>(s: Seq<A>)
    ensures
        s.take(s.len() as int) == s,
{
    assert(s.take(s.len() as int) =~= s);
}

} // verus!
