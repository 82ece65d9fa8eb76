//! The environment: one flat frame of bindings from names to values.

use vstd::prelude::*;
use crate::evaluation_errors::LisrEvaluationError;
use crate::expression::{expression_view, Expression, ExpressionView, Identifier};

verus! {

/// A single frame of bindings. No name is bound twice: defining a name that
/// is already bound overwrites its value.
#[derive(Debug, PartialEq)]
pub struct Environment {
    frame: Vec<(Identifier, Expression)>,
}

/// The map that a list of bindings stands for. Where a name occurs more than
/// once, its last binding counts.
pub open spec fn bindings_map(bindings: Seq<(Identifier, Expression)>) -> Map<
    Seq<char>,
    ExpressionView,
>
    decreases bindings,
{
    if bindings.len() == 0 {
        Map::empty()
    } else {
        bindings_map(bindings.drop_last()).insert(
            bindings.last().0.name@,
            expression_view(bindings.last().1),
        )
    }
}

/// No name is bound twice in the list.
pub open spec fn distinct_names(bindings: Seq<(Identifier, Expression)>) -> bool {
    forall|i: int, j: int| 0 <= i < j < bindings.len() ==> bindings[i].0.name@ != bindings[j].0.name@
}

/// The map from names to values that an environment stands for.
pub closed spec fn environment_view(environment: Environment) -> Map<Seq<char>, ExpressionView>
    decreases environment,
{
    bindings_map(environment.frame@)
}

impl View for Environment {
    type V = Map<Seq<char>, ExpressionView>;

    open spec fn view(&self) -> Map<Seq<char>, ExpressionView> {
        environment_view(*self)
    }
}

/// The index of the last binding of `name`, or -1 where there is none.
spec fn position_of(bindings: Seq<(Identifier, Expression)>, name: Seq<char>) -> int
    decreases bindings.len(),
{
    if bindings.len() == 0 {
        -1
    } else if bindings.last().0.name@ == name {
        bindings.len() - 1
    } else {
        position_of(bindings.drop_last(), name)
    }
}

proof fn lemma_position_of(bindings: Seq<(Identifier, Expression)>, name: Seq<char>)
    ensures
        -1 <= position_of(bindings, name) < bindings.len(),
        position_of(bindings, name) >= 0 ==> bindings[position_of(bindings, name)].0.name@ == name,
        forall|i: int|
            position_of(bindings, name) < i < bindings.len() ==> bindings[i].0.name@ != name,
        bindings_map(bindings).contains_key(name) <==> position_of(bindings, name) >= 0,
        bindings_map(bindings).contains_key(name) ==> bindings_map(bindings)[name]
            == expression_view(bindings[position_of(bindings, name)].1),
    decreases bindings.len(),
{
    if bindings.len() > 0 {
        lemma_position_of(bindings.drop_last(), name);
        assert forall|i: int|
            position_of(bindings, name) < i < bindings.len() implies bindings[i].0.name@
            != name by {
            if i < bindings.len() - 1 {
                assert(bindings.drop_last()[i] == bindings[i]);
            }
        }
    }
}

proof fn lemma_bindings_map_congruent(
    left: Seq<(Identifier, Expression)>,
    right: Seq<(Identifier, Expression)>,
)
    requires
        left.len() == right.len(),
        forall|k: int|
            0 <= k < left.len() ==> left[k].0.name@ == right[k].0.name@ && left[k].1@
                == right[k].1@,
    ensures
        bindings_map(left) == bindings_map(right),
    decreases left.len(),
{
    if left.len() > 0 {
        lemma_bindings_map_congruent(left.drop_last(), right.drop_last());
    }
}

/// Overwriting the one binding of a name changes the map at that name only.
proof fn lemma_bindings_map_update(
    bindings: Seq<(Identifier, Expression)>,
    position: int,
    binding: (Identifier, Expression),
)
    requires
        0 <= position < bindings.len(),
        bindings[position].0.name@ == binding.0.name@,
        forall|i: int| position < i < bindings.len() ==> bindings[i].0.name@ != binding.0.name@,
    ensures
        bindings_map(bindings.update(position, binding)) == bindings_map(bindings).insert(
            binding.0.name@,
            binding.1@,
        ),
    decreases bindings.len(),
{
    let updated = bindings.update(position, binding);
    if position == bindings.len() - 1 {
        assert(updated.drop_last() == bindings.drop_last());
        assert(bindings_map(updated) =~= bindings_map(bindings).insert(
            binding.0.name@,
            binding.1@,
        ));
    } else {
        assert(updated.drop_last() == bindings.drop_last().update(position, binding));
        lemma_bindings_map_update(bindings.drop_last(), position, binding);
        assert(updated.last() == bindings.last());
        assert(bindings_map(updated) =~= bindings_map(bindings).insert(
            binding.0.name@,
            binding.1@,
        ));
    }
}

impl Environment {
    #[verifier::type_invariant]
    spec fn well_formed(self) -> bool {
        distinct_names(self.frame@)
    }

    pub fn new() -> (environment: Environment)
        ensures
            environment@ == Map::<Seq<char>, ExpressionView>::empty(),
    {
        Environment { frame: Vec::new() }
    }

    /// Where `variable` is bound in the frame, if it is.
    fn find(&self, variable: &Identifier) -> (position: Option<usize>)
        ensures
            match position {
                Some(i) => i < self.frame.len() && i == position_of(self.frame@, variable.name@),
                None => position_of(self.frame@, variable.name@) == -1,
            },
    {
        let mut i: usize = self.frame.len();
        proof {
            assert(self.frame@.subrange(0, i as int) == self.frame@);
        }
        while i > 0
            invariant
                i <= self.frame.len(),
                position_of(self.frame@, variable.name@) == position_of(
                    self.frame@.subrange(0, i as int),
                    variable.name@,
                ),
            decreases i,
        {
            let ghost prefix = self.frame@.subrange(0, i as int);
            assert(prefix.last() == self.frame@[i - 1]);
            assert(prefix.drop_last() == self.frame@.subrange(0, i - 1));
            if self.frame[i - 1].0.name == variable.name {
                return Some(i - 1);
            }
            i = i - 1;
        }
        None
    }

    /// Binds `variable` to a copy of `value`, overwriting an earlier binding
    /// of the same name.
    pub fn define_variable(&mut self, variable: &Identifier, value: &Expression)
        ensures
            final(self)@ == old(self)@.insert(variable.name@, value@),
    {
        proof {
            use_type_invariant(&*self);
            lemma_position_of(self.frame@, variable.name@);
        }
        let binding = (variable.duplicate(), value.duplicate());
        let position = self.find(variable);
        let mut frame: Vec<(Identifier, Expression)> = Vec::new();
        core::mem::swap(&mut self.frame, &mut frame);
        match position {
            Some(i) => {
                proof {
                    lemma_bindings_map_update(frame@, i as int, binding);
                }
                frame[i] = binding;
            },
            None => {
                assert(frame@.push(binding).drop_last() == frame@);
                frame.push(binding);
            },
        }
        self.frame = frame;
    }

    pub fn lookup_value(&self, variable: &Identifier) -> (result: Result<
        Expression,
        LisrEvaluationError,
    >)
        ensures
            match result {
                Ok(value) => self@.contains_key(variable.name@) && value@ == self@[variable.name@],
                Err(error) => !self@.contains_key(variable.name@)
                    && error == LisrEvaluationError::UndefinedIdentifier,
            },
    {
        proof {
            lemma_position_of(self.frame@, variable.name@);
        }
        match self.find(variable) {
            Some(i) => Ok(self.frame[i].1.duplicate()),
            None => Err(LisrEvaluationError::UndefinedIdentifier),
        }
    }

    /// The bindings of the environment, each name once.
    pub fn into_iter(self) -> (bindings: Vec<(Identifier, Expression)>)
        ensures
            distinct_names(bindings@),
            bindings_map(bindings@) == self@,
    {
        proof {
            use_type_invariant(&self);
        }
        self.frame
    }

    /// An independent copy of the environment.
    pub fn duplicate(&self) -> (copy: Environment)
        ensures
            copy@ == self@,
        decreases self,
    {
        proof {
            use_type_invariant(self);
        }
        let mut frame: Vec<(Identifier, Expression)> = Vec::new();
        let mut i: usize = 0;
        while i < self.frame.len()
            invariant
                i <= self.frame.len(),
                frame.len() == i,
                distinct_names(self.frame@),
                forall|k: int|
                    0 <= k < i ==> frame[k].0.name@ == self.frame[k].0.name@ && frame[k].1@
                        == self.frame[k].1@,
            decreases self.frame.len() - i,
        {
            let binding = (self.frame[i].0.duplicate(), self.frame[i].1.duplicate());
            frame.push(binding);
            i = i + 1;
        }
        proof {
            lemma_bindings_map_congruent(frame@, self.frame@);
        }
        Environment { frame }
    }
}

impl Clone for Environment {
    fn clone(&self) -> (copy: Self)
        ensures
            copy@ == self@,
    {
        self.duplicate()
    }
}

} // verus!
