use vstd::prelude::*;
use crate::data::{Data, data_text, push_data, lemma_data_text_nonempty};
use crate::text::{fold_join, fold_push, join, lemma_fold_join_is_join};

verus! {

/// The lines of the data points, in order.
pub open spec fn data_texts(data: Seq<Data>, n: nat) -> Seq<Seq<char>> {
    Seq::new(n, |j: int| data_text(data[j]))
}

/// The body of an update request: the lines of the data points folded with
/// line breaks.
pub open spec fn body_text(data: Seq<Data>) -> Seq<char> {
    fold_join(data_texts(data, data.len()), '\n')
}

/// The body of an update request that sends `data`: one line per data point.
pub fn serialize_data_to_body(data: Vec<Data>) -> (body: String)
    ensures
        body@ == body_text(data@),
{
    let mut acc = String::new();
    let n = data.len();
    let mut i: usize = 0;
    while i < n
        invariant
            i <= n,
            n == data@.len(),
            acc@ == fold_join(data_texts(data@, i as nat), '\n'),
        decreases n - i,
    {
        let mut cur = String::new();
        push_data(&mut cur, &data[i]);
        let ghost prev = data_texts(data@, i as nat);
        fold_push(&mut acc, cur.as_str(), '\n');
        proof {
            let next = data_texts(data@, (i + 1) as nat);
            assert(next.drop_last() == prev);
        }
        i = i + 1;
    }
    acc
}

/// The body holds one line per data point, every one of them, in order,
/// separated by line breaks: no line is empty, so none is skipped.
pub proof fn law_body_lines(data: Seq<Data>)
    ensures
        body_text(data) == join(data_texts(data, data.len()), '\n'),
        body_text(data) == join(Seq::new(data.len(), |j: int| data_text(data[j])), '\n'),
        data.len() > 0 ==> body_text(data).len() > 0,
{
    assert(data_texts(data, data.len()) =~= Seq::new(data.len(), |j: int| data_text(data[j])));
    let parts = data_texts(data, data.len());
    assert forall|i: int| 0 <= i < parts.len() implies #[trigger] parts[i].len() > 0 by {
        assert(parts[i] == data_text(data[i]));
        lemma_data_text_nonempty(data[i]);
    }
    lemma_fold_join_is_join(parts, '\n');
}

} // verus!
