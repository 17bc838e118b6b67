//! Chat sessions: their records, the order they are listed in, the file
//! names they are kept under, and the clean-up of a model's reply.
use vstd::prelude::*;
use crate::clock::now_str;
use crate::clock::generate_id;
use crate::json::{member, unsigned_number, with_member, JsonNumber, JsonValue};
use crate::text::{chars_of, dec, ends_with, is_ws, trim_start, push_digits, push_str, string_of_range, trim, trim_bounds, trim_end, trim_end_bound};

verus! {

broadcast use vstd::string::group_string_axioms;

/// A chat session's record.
pub struct Session {
    pub id: String,
    pub title: String,
    pub created_at: String,
    pub updated_at: String,
    pub message_count: u32,
}

/// One message of a session.
pub struct ChatMessage {
    pub role: String,
    pub content: String,
    pub timestamp: String,
}

/// The special tokens that models leave at the end of a reply.
pub open spec fn end_tokens() -> Seq<Seq<char>> {
    seq![
        "<|im_end|>"@,
        "<|im_start|>"@,
        "<|im_sep|>"@,
        "<|assistant|>"@,
        "<|user|>"@,
        "<|system|>"@,
        "</s>"@,
        "<s>"@,
        "<end_of_turn>"@,
        "<eos>"@,
        "<bos>"@,
    ]
}

/// The first special token (in the order of [`end_tokens`]) that `s` ends with.
pub open spec fn first_end_token(s: Seq<char>, from: int) -> Option<Seq<char>>
    decreases end_tokens().len() - from,
{
    if from < 0 || from >= end_tokens().len() {
        None
    } else if ends_with(s, end_tokens()[from]) {
        Some(end_tokens()[from])
    } else {
        first_end_token(s, from + 1)
    }
}

/// No special token is empty.
pub proof fn lemma_end_tokens_nonempty()
    ensures
        forall|i: int| 0 <= i < end_tokens().len() ==> #[trigger] end_tokens()[i].len() > 0,
{
    reveal_strlit("<|im_end|>");
    reveal_strlit("<|im_start|>");
    reveal_strlit("<|im_sep|>");
    reveal_strlit("<|assistant|>");
    reveal_strlit("<|user|>");
    reveal_strlit("<|system|>");
    reveal_strlit("</s>");
    reveal_strlit("<s>");
    reveal_strlit("<end_of_turn>");
    reveal_strlit("<eos>");
    reveal_strlit("<bos>");
}

/// What `first_end_token` finds is a non-empty suffix of `s`.
pub proof fn lemma_first_end_token(s: Seq<char>, from: int)
    requires
        from >= 0,
    ensures
        first_end_token(s, from) matches Some(t) ==> t.len() > 0 && ends_with(s, t),
        first_end_token(s, from) is None ==> forall|i: int|
            from <= i < end_tokens().len() && 0 <= i ==> !ends_with(s, #[trigger] end_tokens()[i]),
    decreases end_tokens().len() - from,
{
    lemma_end_tokens_nonempty();
    if 0 <= from < end_tokens().len() && !ends_with(s, end_tokens()[from]) {
        lemma_first_end_token(s, from + 1);
    }
}

/// `trim_end` never lengthens.
pub proof fn lemma_trim_end_len(s: Seq<char>)
    ensures
        trim_end(s).len() <= s.len(),
    decreases s.len(),
{
    if s.len() > 0 && crate::text::is_ws(s.last()) {
        lemma_trim_end_len(s.drop_last());
    }
}

/// `s` with special tokens stripped from its end, one at a time, trailing
/// white space trimmed after each.
pub open spec fn strip_end_tokens(s: Seq<char>) -> Seq<char>
    decreases s.len(),
{
    match first_end_token(s, 0) {
        Some(t) => {
            proof {
                lemma_first_end_token(s, 0);
                lemma_trim_end_len(s.take(s.len() - t.len()));
            }
            strip_end_tokens(trim_end(s.take(s.len() - t.len())))
        },
        None => s,
    }
}

/// `s` does not start with white space.
pub open spec fn no_leading_ws(s: Seq<char>) -> bool {
    s.len() == 0 || !is_ws(s[0])
}

/// `s` does not end with white space.
pub open spec fn no_trailing_ws(s: Seq<char>) -> bool {
    s.len() == 0 || !is_ws(s.last())
}

proof fn lemma_trim_start_clean(s: Seq<char>)
    ensures
        no_leading_ws(trim_start(s)),
        no_leading_ws(s) ==> trim_start(s) == s,
    decreases s.len(),
{
    if s.len() > 0 && is_ws(s[0]) {
        lemma_trim_start_clean(s.drop_first());
    }
}

proof fn lemma_trim_end_clean(s: Seq<char>)
    ensures
        no_trailing_ws(trim_end(s)),
        no_trailing_ws(s) ==> trim_end(s) == s,
        trim_end(s) == s.take(trim_end(s).len() as int),
        no_leading_ws(s) ==> no_leading_ws(trim_end(s)),
    decreases s.len(),
{
    if s.len() > 0 && is_ws(s.last()) {
        lemma_trim_end_clean(s.drop_last());
        lemma_trim_end_len(s.drop_last());
        let r = trim_end(s.drop_last());
        assert(s.drop_last().take(r.len() as int) =~= s.take(r.len() as int));
        if no_leading_ws(s) && r.len() > 0 {
            assert(r[0] == s[0]);
        }
    } else {
        assert(s.take(s.len() as int) =~= s);
    }
}

proof fn lemma_strip_clean(s: Seq<char>)
    requires
        no_leading_ws(s),
        no_trailing_ws(s),
    ensures
        no_leading_ws(strip_end_tokens(s)),
        no_trailing_ws(strip_end_tokens(s)),
        first_end_token(strip_end_tokens(s), 0) is None,
        strip_end_tokens(s).len() <= s.len(),
        strip_end_tokens(s) == s.take(strip_end_tokens(s).len() as int),
    decreases s.len(),
{
    match first_end_token(s, 0) {
        Some(tok) => {
            lemma_first_end_token(s, 0);
            let p = s.take(s.len() - tok.len());
            lemma_trim_end_len(p);
            lemma_trim_end_clean(p);
            if p.len() > 0 {
                assert(p[0] == s[0]);
            }
            lemma_strip_clean(trim_end(p));
            let q = trim_end(p);
            let r = strip_end_tokens(q);
            assert(p.take(q.len() as int) =~= s.take(q.len() as int));
            assert(q.take(r.len() as int) =~= s.take(r.len() as int));
        },
        None => {
            assert(s.take(s.len() as int) =~= s);
        },
    }
}

/// The cleaned reply of a model's answer has no white space at either end
/// and no special token at its end; cleaning it again changes nothing; and
/// it is the beginning of the trimmed answer: only its end was stripped.
pub proof fn law_cleaned_reply_is_clean(content: Seq<char>)
    ensures
        cleaned_reply(content).len() <= trim(content).len(),
        trim(content).take(cleaned_reply(content).len() as int) == cleaned_reply(content),
        trim(cleaned_reply(content)) == cleaned_reply(content),
        forall|i: int| 0 <= i < end_tokens().len() ==> !ends_with(cleaned_reply(content), #[trigger] end_tokens()[i]),
        cleaned_reply(cleaned_reply(content)) == cleaned_reply(content),
{
    let s = trim(content);
    lemma_trim_start_clean(content);
    lemma_trim_end_clean(trim_start(content));
    lemma_strip_clean(s);
    let c = cleaned_reply(content);
    lemma_trim_start_clean(c);
    lemma_trim_end_clean(c);
    lemma_first_end_token(c, 0);
}

/// The cleaned reply ends with none of the end-of-turn tokens that models
/// leave: ChatML's, Phi's, Llama's and Gemma's.
pub proof fn law_cleaned_reply_has_no_end_token(content: Seq<char>)
    ensures
        !ends_with(cleaned_reply(content), "<|im_end|>"@),
        !ends_with(cleaned_reply(content), "<|im_start|>"@),
        !ends_with(cleaned_reply(content), "<|im_sep|>"@),
        !ends_with(cleaned_reply(content), "<|assistant|>"@),
        !ends_with(cleaned_reply(content), "<|user|>"@),
        !ends_with(cleaned_reply(content), "<|system|>"@),
        !ends_with(cleaned_reply(content), "</s>"@),
        !ends_with(cleaned_reply(content), "<s>"@),
        !ends_with(cleaned_reply(content), "<end_of_turn>"@),
        !ends_with(cleaned_reply(content), "<eos>"@),
        !ends_with(cleaned_reply(content), "<bos>"@),
{
    law_cleaned_reply_is_clean(content);
    let t = end_tokens();
    assert(t[0] == "<|im_end|>"@);
    assert(t[1] == "<|im_start|>"@);
    assert(t[2] == "<|im_sep|>"@);
    assert(t[3] == "<|assistant|>"@);
    assert(t[4] == "<|user|>"@);
    assert(t[5] == "<|system|>"@);
    assert(t[6] == "</s>"@);
    assert(t[7] == "<s>"@);
    assert(t[8] == "<end_of_turn>"@);
    assert(t[9] == "<eos>"@);
    assert(t[10] == "<bos>"@);
}

/// The reply text kept from a model's answer: trimmed, then stripped of
/// special tokens at its end.
pub open spec fn cleaned_reply(content: Seq<char>) -> Seq<char> {
    strip_end_tokens(trim(content))
}

fn end_token_list() -> (r: Vec<&'static str>)
    ensures
        r@.map_values(|t: &str| t@) == end_tokens(),
{
    let v = vec![
        "<|im_end|>",
        "<|im_start|>",
        "<|im_sep|>",
        "<|assistant|>",
        "<|user|>",
        "<|system|>",
        "</s>",
        "<s>",
        "<end_of_turn>",
        "<eos>",
        "<bos>",
    ];
    assert(v@.map_values(|t: &str| t@) =~= end_tokens());
    v
}

/// Whether `cs[..n]` ends with `t`.
fn ends_with_at(cs: &Vec<char>, n: usize, t: &Vec<char>) -> (r: bool)
    requires
        n <= cs@.len(),
    ensures
        r == ends_with(cs@.take(n as int), t@),
{
    if t.len() > n {
        return false;
    }
    let start = n - t.len();
    let mut j: usize = 0;
    while j < t.len()
        invariant
            start + t@.len() == n <= cs@.len(),
            j <= t@.len(),
            forall|k: int| 0 <= k < j ==> cs@[start + k] == t@[k],
        decreases t@.len() - j,
    {
        if cs[start + j] != t[j] {
            assert(cs@.take(n as int).skip(start as int)[j as int] != t@[j as int]);
            return false;
        }
        j += 1;
    }
    assert(cs@.take(n as int).skip(start as int) =~= t@);
    true
}

fn find_end_token(t: &Vec<char>, n: usize, toks: &Vec<Vec<char>>) -> (r: Option<usize>)
    requires
        n <= t@.len(),
        toks@.len() == end_tokens().len(),
        forall|j: int| 0 <= j < toks@.len() ==> #[trigger] toks@[j]@ == end_tokens()[j],
    ensures
        match r {
            Some(i) => i < toks@.len() && first_end_token(t@.take(n as int), 0) == Some(end_tokens()[i as int]),
            None => first_end_token(t@.take(n as int), 0) is None,
        },
{
    let ghost s = t@.take(n as int);
    let mut i: usize = 0;
    while i < toks.len()
        invariant
            i <= toks@.len(),
            toks@.len() == end_tokens().len(),
            forall|j: int| 0 <= j < toks@.len() ==> #[trigger] toks@[j]@ == end_tokens()[j],
            n <= t@.len(),
            s == t@.take(n as int),
            first_end_token(s, 0) == first_end_token(s, i as int),
        decreases toks@.len() - i,
    {
        if ends_with_at(t, n, &toks[i]) {
            return Some(i);
        }
        i += 1;
    }
    None
}

/// Strips the special tokens that a model left at the end of its reply.
pub fn clean_reply(content: &str) -> (r: String)
    ensures
        r@ == cleaned_reply(content@),
{
    let cs = chars_of(content);
    let (a, b) = trim_bounds(&cs, 0, cs.len());
    assert(cs@.subrange(0, cs@.len() as int) =~= cs@);
    let text = string_of_range(&cs, a, b);
    let t = chars_of(text.as_str());
    let tokens = end_token_list();
    let mut n = t.len();
    let mut toks: Vec<Vec<char>> = Vec::new();
    let mut k: usize = 0;
    while k < tokens.len()
        invariant
            k <= tokens@.len(),
            tokens@.map_values(|x: &str| x@) == end_tokens(),
            toks@.len() == k,
            forall|i: int| 0 <= i < k ==> #[trigger] toks@[i]@ == end_tokens()[i],
        decreases tokens@.len() - k,
    {
        assert(tokens@.map_values(|x: &str| x@)[k as int] == tokens@[k as int]@);
        toks.push(chars_of(tokens[k]));
        k += 1;
    }
    proof {
        lemma_end_tokens_nonempty();
    }
    assert(t@.take(n as int) =~= t@);
    loop
        invariant
            n <= t@.len(),
            toks@.len() == end_tokens().len(),
            forall|i: int| 0 <= i < toks@.len() ==> #[trigger] toks@[i]@ == end_tokens()[i],
            forall|i: int| 0 <= i < end_tokens().len() ==> #[trigger] end_tokens()[i].len() > 0,
            strip_end_tokens(t@.take(n as int)) == cleaned_reply(content@),
        ensures
            n <= t@.len(),
            strip_end_tokens(t@.take(n as int)) == cleaned_reply(content@),
            first_end_token(t@.take(n as int), 0) is None,
        decreases n,
    {
        let ghost s = t@.take(n as int);
        let found = find_end_token(&t, n, &toks);
        match found {
            Some(i) => {
                proof {
                    lemma_first_end_token(s, 0);
                }
                let tl = toks[i].len();
                let m = trim_end_bound(&t, 0, n - tl);
                assert(t@.subrange(0, (n - tl) as int) =~= s.take(s.len() - end_tokens()[i as int].len()));
                assert(t@.subrange(0, m as int) =~= t@.take(m as int));
                n = m;
            },
            None => {
                break;
            },
        }
    }
    assert(t@.subrange(0, n as int) =~= t@.take(n as int));
    string_of_range(&t, 0, n)
}

/// `a` comes before `b` in the order of `str`'s `cmp`: character by
/// character, a proper prefix first.
pub open spec fn str_less(a: Seq<char>, b: Seq<char>) -> bool
    decreases a.len(),
{
    if a.len() == 0 {
        b.len() > 0
    } else if b.len() == 0 {
        false
    } else if a[0] != b[0] {
        a[0] < b[0]
    } else {
        str_less(a.drop_first(), b.drop_first())
    }
}

/// Whether `a` sorts before `b`.
pub fn str_lt(a: &str, b: &str) -> (r: bool)
    ensures
        r == str_less(a@, b@),
{
    let x = chars_of(a);
    let y = chars_of(b);
    let mut i: usize = 0;
    assert(x@.skip(0) =~= x@);
    assert(y@.skip(0) =~= y@);
    while i < x.len() && i < y.len()
        invariant
            i <= x@.len(),
            i <= y@.len(),
            x@ == a@,
            y@ == b@,
            str_less(a@, b@) == str_less(x@.skip(i as int), y@.skip(i as int)),
        decreases x@.len() - i,
    {
        assert(x@.skip(i as int)[0] == x@[i as int]);
        assert(y@.skip(i as int)[0] == y@[i as int]);
        if x[i] != y[i] {
            return x[i] < y[i];
        }
        assert(x@.skip(i as int).drop_first() =~= x@.skip(i + 1));
        assert(y@.skip(i as int).drop_first() =~= y@.skip(i + 1));
        i += 1;
    }
    i == x.len() && i < y.len()
}

/// `sorted` with `x` put after every session updated no earlier than `x`.
pub open spec fn insert_by_recency(sorted: Seq<Session>, x: Session) -> Seq<Session>
    decreases sorted.len(),
{
    if sorted.len() == 0 {
        seq![x]
    } else if str_less(sorted.last().updated_at@, x.updated_at@) {
        insert_by_recency(sorted.drop_last(), x).push(sorted.last())
    } else {
        sorted.push(x)
    }
}

/// The sessions most recently updated first (by the text of `updated_at`),
/// sessions with equal times in the order given.
pub open spec fn by_recency(s: Seq<Session>) -> Seq<Session>
    decreases s.len(),
{
    if s.len() == 0 {
        Seq::empty()
    } else {
        insert_by_recency(by_recency(s.drop_last()), s.last())
    }
}

proof fn lemma_insert_at(s: Seq<Session>, x: Session, p: int)
    requires
        0 <= p <= s.len(),
        p == 0 || !str_less(s[p - 1].updated_at@, x.updated_at@),
        forall|k: int| p <= k < s.len() ==> str_less(#[trigger] s[k].updated_at@, x.updated_at@),
    ensures
        insert_by_recency(s, x) == s.take(p).push(x) + s.skip(p),
    decreases s.len(),
{
    if s.len() == p {
        if s.len() == 0 {
            assert(s.take(p).push(x) + s.skip(p) =~= seq![x]);
        } else {
            assert(s.take(p) =~= s);
            assert(s.take(p).push(x) + s.skip(p) =~= s.push(x));
        }
    } else {
        lemma_insert_at(s.drop_last(), x, p);
        assert(s.drop_last().take(p) =~= s.take(p));
        assert(s.take(p).push(x) + s.skip(p) =~= (s.drop_last().take(p).push(x) + s.drop_last().skip(p)).push(
            s.last(),
        ));
    }
}

/// Lists sessions most recently updated first; sessions with equal times
/// keep their order.
pub fn sort_sessions(sessions: Vec<Session>) -> (r: Vec<Session>)
    ensures
        r@ == by_recency(sessions@),
{
    let total = sessions.len();
    let mut rest = sessions;
    let mut out: Vec<Session> = Vec::new();
    let ghost orig = rest@;
    let mut k: usize = 0;
    assert(orig.take(0) =~= Seq::<Session>::empty());
    while rest.len() > 0
        invariant
            k <= orig.len(),
            orig.len() == total,
            rest@ == orig.skip(k as int),
            out@ == by_recency(orig.take(k as int)),
        decreases rest@.len(),
    {
        let x = rest.remove(0);
        assert(x == orig[k as int]);
        let mut p = out.len();
        while p > 0 && str_lt(out[p - 1].updated_at.as_str(), x.updated_at.as_str())
            invariant
                p <= out@.len(),
                forall|j: int| p <= j < out@.len() ==> str_less(#[trigger] out@[j].updated_at@, x.updated_at@),
            decreases p,
        {
            p -= 1;
        }
        proof {
            lemma_insert_at(out@, x, p as int);
            assert(orig.take(k + 1).drop_last() =~= orig.take(k as int));
        }
        let ghost before = out@;
        out.insert(p, x);
        assert(out@ =~= before.take(p as int).push(x) + before.skip(p as int));
        assert(rest@ =~= orig.skip(k + 1));
        k += 1;
    }
    assert(orig.take(k as int) =~= orig);
    out
}

pub proof fn lemma_str_less_irreflexive(a: Seq<char>)
    ensures
        !str_less(a, a),
    decreases a.len(),
{
    if a.len() > 0 {
        lemma_str_less_irreflexive(a.drop_first());
    }
}

proof fn lemma_str_less_asymmetric(a: Seq<char>, b: Seq<char>)
    ensures
        str_less(a, b) ==> !str_less(b, a),
    decreases a.len(),
{
    if a.len() > 0 && b.len() > 0 && a[0] == b[0] {
        lemma_str_less_asymmetric(a.drop_first(), b.drop_first());
    }
}

pub proof fn lemma_str_less_transitive(a: Seq<char>, b: Seq<char>, c: Seq<char>)
    ensures
        str_less(a, b) && str_less(b, c) ==> str_less(a, c),
    decreases a.len(),
{
    if a.len() > 0 && b.len() > 0 && c.len() > 0 && a[0] == b[0] && b[0] == c[0] {
        lemma_str_less_transitive(a.drop_first(), b.drop_first(), c.drop_first());
    }
}

pub proof fn lemma_str_less_total(a: Seq<char>, b: Seq<char>)
    ensures
        a != b ==> str_less(a, b) || str_less(b, a),
    decreases a.len(),
{
    if a.len() == 0 && b.len() == 0 {
        assert(a =~= b);
    } else if a.len() > 0 && b.len() > 0 && a[0] == b[0] {
        lemma_str_less_total(a.drop_first(), b.drop_first());
        if a.drop_first() == b.drop_first() {
            assert forall|i: int| 0 <= i < a.len() implies a[i] == b[i] by {
                if i > 0 {
                    assert(a[i] == a.drop_first()[i - 1]);
                    assert(b[i] == b.drop_first()[i - 1]);
                }
            }
            assert(a.drop_first().len() == a.len() - 1);
            assert(b.drop_first().len() == b.len() - 1);
            assert(a.len() == b.len());
            assert(a =~= b);
        }
    }
}

/// "Not before" is transitive.
pub proof fn lemma_not_less_transitive(a: Seq<char>, b: Seq<char>, c: Seq<char>)
    ensures
        !str_less(a, b) && !str_less(b, c) ==> !str_less(a, c),
{
    lemma_str_less_total(a, b);
    lemma_str_less_transitive(b, a, c);
    lemma_str_less_asymmetric(a, c);
}

/// No session comes before an earlier-updated one.
pub open spec fn recency_sorted(s: Seq<Session>) -> bool {
    forall|i: int, j: int|
        0 <= i < j < s.len() ==> !str_less(#[trigger] s[i].updated_at@, #[trigger] s[j].updated_at@)
}

proof fn lemma_insert_by_recency(s: Seq<Session>, x: Session)
    requires
        recency_sorted(s),
    ensures
        recency_sorted(insert_by_recency(s, x)),
        insert_by_recency(s, x).to_multiset() == s.to_multiset().insert(x),
    decreases s.len(),
{
    broadcast use vstd::seq_lib::group_to_multiset_ensures;

    if s.len() == 0 {
        assert(seq![x] =~= Seq::<Session>::empty().push(x));
    } else {
        let last = s.last();
        let dl = s.drop_last();
        assert(dl.push(last) =~= s);
        if str_less(last.updated_at@, x.updated_at@) {
            assert(recency_sorted(dl));
            lemma_insert_by_recency(dl, x);
            let m = insert_by_recency(dl, x);
            let r = m.push(last);
            assert forall|i: int, j: int| 0 <= i < j < r.len() implies !str_less(
                #[trigger] r[i].updated_at@,
                #[trigger] r[j].updated_at@,
            ) by {
                if j == r.len() - 1 {
                    let e = m[i];
                    assert(m.to_multiset().count(e) > 0);
                    if e == x {
                        lemma_str_less_asymmetric(last.updated_at@, x.updated_at@);
                    } else {
                        assert(dl.to_multiset().count(e) > 0);
                        assert(dl.contains(e));
                        let k = choose|k: int| 0 <= k < dl.len() && dl[k] == e;
                        assert(s[k] == e);
                        assert(s[s.len() - 1] == last);
                    }
                }
            }
        } else {
            assert forall|i: int, j: int| 0 <= i < j < s.push(x).len() implies !str_less(
                #[trigger] s.push(x)[i].updated_at@,
                #[trigger] s.push(x)[j].updated_at@,
            ) by {
                if j == s.len() {
                    if i < s.len() - 1 {
                        assert(s[s.len() - 1] == last);
                        lemma_not_less_transitive(s[i].updated_at@, last.updated_at@, x.updated_at@);
                    }
                }
            }
        }
    }
}

/// Sessions are listed most recently updated first, and the listing holds
/// exactly the sessions it was given.
pub proof fn law_sessions_by_recency(s: Seq<Session>)
    ensures
        recency_sorted(by_recency(s)),
        by_recency(s).to_multiset() == s.to_multiset(),
    decreases s.len(),
{
    broadcast use vstd::seq_lib::group_to_multiset_ensures;

    if s.len() > 0 {
        law_sessions_by_recency(s.drop_last());
        lemma_insert_by_recency(by_recency(s.drop_last()), s.last());
        assert(s.drop_last().push(s.last()) =~= s);
    }
}

/// The title a new session gets: the one given, or `新会话`.
pub open spec fn new_session_title(title: Option<String>) -> Seq<char> {
    match title {
        Some(t) => t@,
        None => "新会话"@,
    }
}

/// A new, empty session with a fresh identifier, created and updated now.
pub fn create_session(title: Option<String>) -> (r: Session)
    ensures
        r.title@ == new_session_title(title),
        r.message_count == 0,
        exists|secs: u64, salt: u16| r.id@ == crate::clock::session_id_text(secs as nat, salt as nat),
        exists|secs: u64| r.created_at@ == crate::clock::hms_text(secs as nat),
        exists|secs: u64| r.updated_at@ == crate::clock::hms_text(secs as nat),
{
    let id = generate_id();
    let title = match title {
        Some(t) => t,
        None => String::from_str("新会话"),
    };
    let created_at = now_str();
    let updated_at = now_str();
    Session { id, title, created_at, updated_at, message_count: 0 }
}

/// The file that holds a session's record.
pub open spec fn meta_file_name(id: Seq<char>) -> Seq<char> {
    id + ".json"@
}

/// The file that holds a session's messages.
pub open spec fn messages_file_name(id: Seq<char>) -> Seq<char> {
    id + ".msgs.json"@
}

/// The file that holds a session's summary.
pub open spec fn summary_file_name(id: Seq<char>) -> Seq<char> {
    id + ".summary"@
}

fn suffixed(id: &str, suffix: &str) -> (r: String)
    ensures
        r@ == id@ + suffix@,
{
    let mut s = String::from_str(id);
    push_str(&mut s, suffix);
    s
}

/// The names of a session's record, messages and summary files.
pub fn session_file_names(id: &str) -> (r: (String, String, String))
    ensures
        r.0@ == meta_file_name(id@),
        r.1@ == messages_file_name(id@),
        r.2@ == summary_file_name(id@),
{
    (suffixed(id, ".json"), suffixed(id, ".msgs.json"), suffixed(id, ".summary"))
}

/// Appends a message and gives the new message count as the session record
/// keeps it (a `u32`, which wraps).
pub fn append_message(messages: &mut Vec<ChatMessage>, role: String, content: String, timestamp: String) -> (count: u32)
    ensures
        final(messages)@ == old(messages)@.push(ChatMessage { role, content, timestamp }),
        count == final(messages)@.len() % 0x1_0000_0000,
{
    messages.push(ChatMessage { role, content, timestamp });
    (messages.len() as u64 % 0x1_0000_0000u64) as u32
}

/// What a session's messages file gave when read: nothing where there is no
/// file, `None` where it did not read as a list of messages, else the list.
pub open spec fn stored_view(stored: Option<Option<Vec<ChatMessage>>>) -> Option<Option<Seq<ChatMessage>>> {
    match stored {
        None => None,
        Some(None) => Some(None),
        Some(Some(v)) => Some(Some(v@)),
    }
}

/// The messages a save extends: those stored, none where there is no file
/// or it does not read.
pub open spec fn messages_to_extend(stored: Option<Option<Seq<ChatMessage>>>) -> Seq<ChatMessage> {
    match stored {
        Some(Some(v)) => v,
        _ => Seq::empty(),
    }
}

/// The messages a load gives: those stored, none where there is no file;
/// an error where the file does not read.
pub open spec fn messages_loaded(stored: Option<Option<Seq<ChatMessage>>>) -> Result<Seq<ChatMessage>, ()> {
    match stored {
        None => Ok(Seq::empty()),
        Some(None) => Err(()),
        Some(Some(v)) => Ok(v),
    }
}

/// Saves a message: the stored messages (none where there is no file or it
/// does not read) with the new one after them, and their count as the
/// session record keeps it.
pub fn saved_messages(stored: Option<Option<Vec<ChatMessage>>>, role: String, content: String, timestamp: String) -> (r: (
    Vec<ChatMessage>,
    u32,
))
    ensures
        r.0@ == messages_to_extend(stored_view(stored)).push(ChatMessage { role, content, timestamp }),
        r.1 == r.0@.len() % 0x1_0000_0000,
{
    let mut messages = match stored {
        Some(Some(v)) => v,
        _ => Vec::new(),
    };
    let count = append_message(&mut messages, role, content, timestamp);
    (messages, count)
}

/// Loads the messages of a session from what its file gave.
pub fn loaded_messages(stored: Option<Option<Vec<ChatMessage>>>) -> (r: Result<Vec<ChatMessage>, ()>)
    ensures
        match (r, messages_loaded(stored_view(stored))) {
            (Ok(v), Ok(w)) => v@ == w,
            (Err(_), Err(_)) => true,
            _ => false,
        },
{
    match stored {
        None => Ok(Vec::new()),
        Some(None) => Err(()),
        Some(Some(v)) => Ok(v),
    }
}

/// A saved message is read back after the earlier ones: where a session's
/// messages load as `old`, saving a message writes `old` followed by it,
/// and loading what was written gives exactly that; the record then counts
/// them (as a `u32`).
pub proof fn law_saved_message_read_back(stored: Option<Option<Seq<ChatMessage>>>, msg: ChatMessage)
    requires
        messages_loaded(stored) is Ok,
    ensures
        ({
            let old = messages_loaded(stored)->Ok_0;
            let written = messages_to_extend(stored).push(msg);
            &&& written == old.push(msg)
            &&& messages_loaded(Some(Some(written))) == Ok::<Seq<ChatMessage>, ()>(old.push(msg))
            &&& written.drop_last() == old
            &&& written.last() == msg
        }),
{
    let old = messages_loaded(stored)->Ok_0;
    assert(old.push(msg).drop_last() =~= old);
}

/// A session record renamed now: `title` and `updated_at` set.
pub fn renamed_record(meta: JsonValue, title: String, now: String) -> (r: JsonValue)
    requires
        meta is Object || meta is Null,
    ensures
        r is Object,
        forall|k: Seq<char>| #[trigger] member(r, k) == (if k == "title"@ {
            Some(JsonValue::Str(title))
        } else if k == "updated_at"@ {
            Some(JsonValue::Str(now))
        } else {
            member(meta, k)
        }),
{
    proof {
        reveal_strlit("title");
        reveal_strlit("updated_at");
    }
    let ghost t = JsonValue::Str(title);
    let ghost u = JsonValue::Str(now);
    let m = with_member(meta, "title", JsonValue::Str(title));
    let r = with_member(m, "updated_at", JsonValue::Str(now));
    assert forall|k: Seq<char>| #[trigger] member(r, k) == (if k == "title"@ {
        Some(t)
    } else if k == "updated_at"@ {
        Some(u)
    } else {
        member(meta, k)
    }) by {
        assert(member(r, k) == (if k == "updated_at"@ {
            Some(u)
        } else {
            member(m, k)
        }));
        assert(member(m, k) == (if k == "title"@ {
            Some(t)
        } else {
            member(meta, k)
        }));
        reveal_strlit("title");
        reveal_strlit("updated_at");
        assert("title"@.len() != "updated_at"@.len());
    }
    r
}

/// A session record after a message was saved: `message_count` and
/// `updated_at` set.
pub fn counted_record(meta: JsonValue, count: u32, now: String) -> (r: JsonValue)
    requires
        meta is Object || meta is Null,
    ensures
        r is Object,
        member(r, "updated_at"@) == Some(JsonValue::Str(now)),
        member(r, "message_count"@) matches Some(JsonValue::Number(n)) && n.as_u64 == Some(count as u64)
            && n.as_i64 == Some(count as i64) && n.float_text@ == dec(count as nat) + ".0"@,
        forall|k: Seq<char>| k != "updated_at"@ && k != "message_count"@ ==> #[trigger] member(r, k) == member(meta, k),
{
    proof {
        reveal_strlit("message_count");
        reveal_strlit("updated_at");
    }
    let n = unsigned_number(count);
    let ghost c = JsonValue::Number(n);
    let m = with_member(meta, "message_count", JsonValue::Number(n));
    let r = with_member(m, "updated_at", JsonValue::Str(now));
    assert(member(m, "message_count"@) == Some(c));
    assert("message_count"@.len() != "updated_at"@.len());
    assert(member(r, "message_count"@) == member(m, "message_count"@));
    assert forall|k: Seq<char>| k != "updated_at"@ && k != "message_count"@ implies #[trigger] member(r, k) == member(
        meta,
        k,
    ) by {
        assert(member(r, k) == member(m, k));
    }
    r
}

/// The reply text in an OpenAI chat completion: `choices[0].message.content`
/// where that is a string, nothing otherwise.
pub open spec fn completion_content(v: JsonValue) -> Seq<char> {
    match crate::json::array_of(member(v, "choices"@)) {
        Some(choices) => if choices.len() > 0 {
            match crate::json::opt_member(member(choices[0], "message"@), "content"@) {
                Some(JsonValue::Str(s)) => s@,
                _ => Seq::empty(),
            }
        } else {
            Seq::empty()
        },
        None => Seq::empty(),
    }
}

/// Reads the reply text of an OpenAI chat completion.
pub fn reply_content(v: &JsonValue) -> (r: String)
    ensures
        r@ == completion_content(*v),
{
    match crate::json::as_array(crate::json::get(v, "choices")) {
        Some(choices) => {
            if choices.len() > 0 {
                match crate::json::get(&choices[0], "message") {
                    Some(msg) => match crate::json::as_str(crate::json::get(msg, "content")) {
                        Some(s) => String::from_str(s.as_str()),
                        None => String::new(),
                    },
                    None => String::new(),
                }
            } else {
                String::new()
            }
        },
        None => String::new(),
    }
}

} // verus!
