use vstd::prelude::*;

verus! {

/// How a term of a formula combines with its successor.
#[derive(Clone, Copy, Debug, PartialEq, Eq, Structural)]
pub enum OperatorType {
    Plus,
    Multiply,
}

/// What evaluating a formula does with the value `v` of a term that has a
/// successor, given the running `result` and the `pending` value.
#[derive(Clone, Copy, Debug, PartialEq, Eq, Structural)]
pub enum Step {
    /// `result += pending + v`, then `pending = 0`.
    Add,
    /// `result *= pending * v`, then `pending = 0`.
    Scale,
    /// `pending = v`.
    Hold,
}

/// The step for a term with operator `op` whose successor has operator `next`:
/// a `Multiply` successor holds the value back, a `Plus` successor closes it
/// into the result by the term's own operator.
pub open spec fn step_of(op: OperatorType, next: OperatorType) -> Step {
    match next {
        OperatorType::Multiply => Step::Hold,
        OperatorType::Plus => match op {
            OperatorType::Plus => Step::Add,
            OperatorType::Multiply => Step::Scale,
        },
    }
}

/// The steps of a formula whose terms carry the operators `ops`: one for each
/// pair of consecutive terms, in order.
pub open spec fn steps_of(ops: Seq<OperatorType>) -> Seq<Step> {
    Seq::new(
        if ops.len() == 0 {
            0
        } else {
            (ops.len() - 1) as nat
        },
        |k: int| step_of(ops[k], ops[k + 1]),
    )
}

/// Decides the step for a term with operator `op` followed by one with `next`.
pub fn step(op: OperatorType, next: OperatorType) -> (r: Step)
    ensures
        r == step_of(op, next),
{
    match next {
        OperatorType::Multiply => Step::Hold,
        OperatorType::Plus => match op {
            OperatorType::Plus => Step::Add,
            OperatorType::Multiply => Step::Scale,
        },
    }
}

/// The steps that evaluating a formula with the operators `ops` takes, one for
/// each pair of consecutive terms; a formula of fewer than two terms takes none.
pub fn steps(ops: &Vec<OperatorType>) -> (r: Vec<Step>)
    ensures
        r@ == steps_of(ops@),
{
    let mut r: Vec<Step> = Vec::new();
    let mut k: usize = 1;
    while k < ops.len()
        invariant
            1 <= k,
            ops.len() == 0 ==> k == 1,
            ops.len() > 0 ==> k <= ops.len(),
            r@.len() == k - 1,
            forall|j: int| 0 <= j < r@.len() ==> #[trigger] r@[j] == step_of(ops@[j], ops@[j + 1]),
        decreases ops.len() - k,
    {
        r.push(step(ops[k - 1], ops[k]));
        k = k + 1;
    }
    assert(r@.len() == steps_of(ops@).len());
    assert forall|j: int| 0 <= j < r@.len() implies r@[j] == #[trigger] steps_of(ops@)[j] by {
        assert(r@[j] == step_of(ops@[j], ops@[j + 1]));
    }
    assert(r@ =~= steps_of(ops@));
    r
}


/// The function that a term applies to its argument before scaling.
pub enum TermType<V> {
    Polymomial,
    Log { base: V },
    Exp { base: V },
    SubFunction { formula: Formula<V> },
}

/// A weighted function application, tagged with how it combines with its
/// successor in a formula.
pub struct Term<V> {
    pub operator: OperatorType,
    pub term_type: TermType<V>,
    pub coefficient: V,
    pub exponent: V,
}

impl<V> Term<V> {
    /// A term from its parts; nothing is checked.
    pub fn new(operator: OperatorType, term_type: TermType<V>, coefficient: V, exponent: V) -> (r:
        Term<V>)
        ensures
            r.operator == operator,
            r.term_type == term_type,
            r.coefficient == coefficient,
            r.exponent == exponent,
    {
        Term { operator, term_type, coefficient, exponent }
    }
}

/// An ordered sequence of terms, grown only at its end.
pub struct Formula<V> {
    formula: Vec<Term<V>>,
}

impl<V> View for Formula<V> {
    type V = Seq<Term<V>>;

    closed spec fn view(&self) -> Seq<Term<V>> {
        self.formula@
    }
}

impl<V> Formula<V> {
    /// The empty formula.
    pub fn new() -> (r: Formula<V>)
        ensures
            r@ == Seq::<Term<V>>::empty(),
    {
        Formula { formula: Vec::new() }
    }

    /// Appends `term` at the end.
    pub fn push(&mut self, term: Term<V>)
        ensures
            final(self)@ == old(self)@.push(term),
    {
        self.formula.push(term);
    }

    /// The number of terms.
    pub fn len(&self) -> (r: usize)
        ensures
            r == self@.len(),
    {
        self.formula.len()
    }

    /// The term at position `k`.
    pub fn term(&self, k: usize) -> (r: &Term<V>)
        requires
            k < self@.len(),
        ensures
            *r == self@[k as int],
    {
        &self.formula[k]
    }

    /// The operators of the terms, in order.
    pub fn operators(&self) -> (r: Vec<OperatorType>)
        ensures
            r@ == operators_of(self@),
    {
        let mut r: Vec<OperatorType> = Vec::new();
        for k in 0..self.formula.len()
            invariant
                r@.len() == k,
                forall|j: int| 0 <= j < k ==> #[trigger] r@[j] == self.formula@[j].operator,
        {
            r.push(self.formula[k].operator);
        }
        assert(r@ =~= operators_of(self@));
        r
    }

    /// What the formula evaluates to, given the value `values[k]` of each
    /// term `k` at the point of evaluation.
    pub fn combine(&self, values: &Vec<V>) -> (r: Expr<V>)
        where
            V: Copy,
        requires
            values@.len() == self@.len(),
        ensures
            r == combined(operators_of(self@), values@),
    {
        let ops = self.operators();
        accumulate(&steps(&ops), values)
    }
}

/// The operators of a sequence of terms.
pub open spec fn operators_of<V>(ts: Seq<Term<V>>) -> Seq<OperatorType> {
    ts.map_values(|t: Term<V>| t.operator)
}

/// An arithmetic expression over term values, with zero as its only constant.
#[derive(Debug, PartialEq)]
pub enum Expr<V> {
    Zero,
    Value(V),
    Sum(Box<Expr<V>>, Box<Expr<V>>),
    Product(Box<Expr<V>>, Box<Expr<V>>),
}

/// The running result after the steps `ss`, taken on the values `vs` from the
/// running `result` and `pending` values.
pub open spec fn run<V>(ss: Seq<Step>, vs: Seq<V>, result: Expr<V>, pending: Expr<V>) -> Expr<V>
    decreases ss.len(),
{
    if ss.len() == 0 {
        result
    } else {
        let v = Expr::Value(vs[0]);
        let rest = ss.drop_first();
        let more = vs.drop_first();
        match ss[0] {
            Step::Add => run(
                rest,
                more,
                Expr::Sum(Box::new(result), Box::new(Expr::Sum(Box::new(pending), Box::new(v)))),
                Expr::Zero,
            ),
            Step::Scale => run(
                rest,
                more,
                Expr::Product(
                    Box::new(result),
                    Box::new(Expr::Product(Box::new(pending), Box::new(v))),
                ),
                Expr::Zero,
            ),
            Step::Hold => run(rest, more, result, v),
        }
    }
}

/// What a formula whose terms carry the operators `ops` and take the values
/// `vs` evaluates to: the steps of its consecutive pairs, run from zero.
pub open spec fn combined<V>(ops: Seq<OperatorType>, vs: Seq<V>) -> Expr<V> {
    run(steps_of(ops), vs, Expr::Zero, Expr::Zero)
}

/// Steps that all hold leave the running result as it was.
pub proof fn lemma_holds_keep_result<V>(ss: Seq<Step>, vs: Seq<V>, result: Expr<V>, pending: Expr<V>)
    requires
        forall|k: int| 0 <= k < ss.len() ==> ss[k] == Step::Hold,
    ensures
        run(ss, vs, result, pending) == result,
    decreases ss.len(),
{
    if ss.len() > 0 {
        let v = Expr::Value(vs[0]);
        assert(ss[0] == Step::Hold);
        lemma_holds_keep_result(ss.drop_first(), vs.drop_first(), result, v);
    }
}

/// A formula of no term or of one term evaluates to zero.
pub proof fn lemma_short_formula_is_zero<V>(ops: Seq<OperatorType>, vs: Seq<V>)
    requires
        ops.len() <= 1,
    ensures
        combined(ops, vs) == Expr::<V>::Zero,
{
    assert(steps_of(ops).len() == 0);
}

/// A formula whose terms all carry `Multiply` evaluates to zero: every value
/// is held back and none reaches the result.
pub proof fn lemma_all_multiply_is_zero<V>(ops: Seq<OperatorType>, vs: Seq<V>)
    requires
        forall|k: int| 0 <= k < ops.len() ==> ops[k] == OperatorType::Multiply,
    ensures
        combined(ops, vs) == Expr::<V>::Zero,
{
    let ss = steps_of(ops);
    assert forall|k: int| 0 <= k < ss.len() implies ss[k] == Step::Hold by {
        assert(ops[k + 1] == OperatorType::Multiply);
    }
    lemma_holds_keep_result(ss, vs, Expr::Zero, Expr::Zero);
}

/// When the first pair of a formula is `Multiply` then `Plus`, the first value
/// is multiplied into the zero result, and the value of the second term
/// starts a fresh run from that product.
pub proof fn lemma_first_scale_multiplies_zero<V>(ops: Seq<OperatorType>, vs: Seq<V>)
    requires
        ops.len() >= 2,
        ops[0] == OperatorType::Multiply,
        ops[1] == OperatorType::Plus,
    ensures
        combined(ops, vs) == run(
            steps_of(ops).drop_first(),
            vs.drop_first(),
            Expr::Product(
                Box::new(Expr::Zero),
                Box::new(Expr::Product(Box::new(Expr::Zero), Box::new(Expr::Value(vs[0])))),
            ),
            Expr::Zero,
        ),
{
    assert(steps_of(ops)[0] == Step::Scale);
}

/// The value of a formula's last term never reaches what the formula
/// evaluates to: only pairs read values, and each reads its first term's.
pub proof fn lemma_last_value_unused<V>(ops: Seq<OperatorType>, vs: Seq<V>, w: V)
    requires
        ops.len() >= 1,
        vs.len() == ops.len(),
    ensures
        combined(ops, vs) == combined(ops, vs.update(ops.len() - 1, w)),
{
    lemma_run_ignores_tail(steps_of(ops), vs, vs.update(ops.len() - 1, w), Expr::Zero, Expr::Zero);
}

/// The run of some steps reads only as many values as there are steps.
proof fn lemma_run_ignores_tail<V>(
    ss: Seq<Step>,
    vs: Seq<V>,
    ws: Seq<V>,
    result: Expr<V>,
    pending: Expr<V>,
)
    requires
        ss.len() <= vs.len(),
        ss.len() <= ws.len(),
        forall|k: int| 0 <= k < ss.len() ==> vs[k] == ws[k],
    ensures
        run(ss, vs, result, pending) == run(ss, ws, result, pending),
    decreases ss.len(),
{
    if ss.len() > 0 {
        assert(vs[0] == ws[0]);
        let a = vs.drop_first();
        let b = ws.drop_first();
        assert forall|k: int| 0 <= k < ss.len() - 1 implies a[k] == b[k] by {
            assert(vs[k + 1] == ws[k + 1]);
        }
        let v = Expr::Value(vs[0]);
        match ss[0] {
            Step::Add => lemma_run_ignores_tail(
                ss.drop_first(),
                a,
                b,
                Expr::Sum(Box::new(result), Box::new(Expr::Sum(Box::new(pending), Box::new(v)))),
                Expr::Zero,
            ),
            Step::Scale => lemma_run_ignores_tail(
                ss.drop_first(),
                a,
                b,
                Expr::Product(
                    Box::new(result),
                    Box::new(Expr::Product(Box::new(pending), Box::new(v))),
                ),
                Expr::Zero,
            ),
            Step::Hold => lemma_run_ignores_tail(ss.drop_first(), a, b, result, v),
        }
    }
}

/// Runs the steps `ss` on the values `vs`, from a zero result and a zero
/// pending value.
pub fn accumulate<V: Copy>(ss: &Vec<Step>, vs: &Vec<V>) -> (r: Expr<V>)
    requires
        ss@.len() <= vs@.len(),
    ensures
        r == run(ss@, vs@, Expr::Zero, Expr::Zero),
{
    let mut result: Expr<V> = Expr::Zero;
    let mut pending: Expr<V> = Expr::Zero;
    let mut k: usize = 0;
    assert(ss@.skip(0) =~= ss@);
    assert(vs@.skip(0) =~= vs@);
    while k < ss.len()
        invariant
            k <= ss@.len() <= vs@.len(),
            run(ss@, vs@, Expr::Zero, Expr::Zero) == run(
                ss@.skip(k as int),
                vs@.skip(k as int),
                result,
                pending,
            ),
        decreases ss.len() - k,
    {
        let ghost s0 = ss@.skip(k as int);
        let ghost v0 = vs@.skip(k as int);
        assert(s0[0] == ss@[k as int]);
        assert(v0[0] == vs@[k as int]);
        assert(s0.drop_first() =~= ss@.skip(k + 1));
        assert(v0.drop_first() =~= vs@.skip(k + 1));
        let v = Expr::Value(vs[k]);
        match ss[k] {
            Step::Add => {
                result = Expr::Sum(Box::new(result), Box::new(Expr::Sum(Box::new(pending), Box::new(v))));
                pending = Expr::Zero;
            },
            Step::Scale => {
                result = Expr::Product(
                    Box::new(result),
                    Box::new(Expr::Product(Box::new(pending), Box::new(v))),
                );
                pending = Expr::Zero;
            },
            Step::Hold => {
                pending = v;
            },
        }
        k = k + 1;
    }
    assert(ss@.skip(k as int) =~= Seq::<Step>::empty());
    result
}

} // verus!
