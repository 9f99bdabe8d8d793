//! The field resolver: executed once per selected field occurrence per
//! request, given the parent value and the collected arguments. A field
//! without a resolver expression projects its name out of the parent
//! value; a field with one evaluates the expression in a context scoped to
//! the invocation. The surrounding execution library walks the selection
//! tree and calls these functions, keeping partial-result semantics: a
//! failing field never aborts its siblings.

use vstd::prelude::*;

use crate::blueprint::DirectiveDefinition;
use crate::blueprint::Expression;
use crate::data_loader::RequestContext;
use crate::http::clone_string_pairs;
use crate::http::string_pairs_view;
use crate::into_schema::FieldResolver;
use crate::into_schema::SchemaField;
use crate::lambda::EvaluationContext;
use crate::value::spec_project;
use crate::value::Value;

verus! {

/// The pass-through-vs-expression decision for one field occurrence: the
/// field is already resolved by projection — where `None` reads as null —
/// or its expression must be evaluated.
#[derive(Debug)]
pub enum FieldPlan<'a> {
    Resolved(Option<&'a Value>),
    Evaluate(&'a Expression),
}

/// Decide how a field occurrence resolves. A projection field looks its
/// name up in the parent value: the stored value where the parent is a
/// keyed structure holding the key, and null — never an error — where the
/// key is missing or the parent is not keyed. An expression field hands
/// its expression back for evaluation.
pub fn resolve_field<'a>(field: &'a SchemaField, parent: &'a Value) -> (r: FieldPlan<'a>)
    ensures
        match field.resolver {
            FieldResolver::Projection => r matches FieldPlan::Resolved(v) && (match v {
                Some(x) => spec_project(*parent, field.name@) == Some(*x),
                None => spec_project(*parent, field.name@) is None,
            }),
            FieldResolver::Expression(e) => r matches FieldPlan::Evaluate(e2) && *e2 == e,
        },
{
    match &field.resolver {
        FieldResolver::Projection => FieldPlan::Resolved(parent.get_key(&field.name)),
        FieldResolver::Expression(e) => FieldPlan::Evaluate(e),
    }
}

/// Build the evaluation context for one expression field: seed it with
/// the request context, attach the execution node, and merge the ambient
/// arguments of the first schema-level directive — the one explicit
/// environment-merge policy — where any directive is declared.
pub fn prepare_eval_context<'a>(
    req: &RequestContext,
    directives: &Vec<DirectiveDefinition>,
    parent: &'a Value,
    args: &'a Vec<(String, Value)>,
) -> (r: EvaluationContext<'a>)
    ensures
        r.parent matches Some(p) && p == parent,
        r.args matches Some(a) && a == args,
        directives@.len() > 0 ==> string_pairs_view(r.env_vars@) == string_pairs_view(
            directives@[0].arguments@,
        ) + string_pairs_view(req.env@),
        directives@.len() == 0 ==> string_pairs_view(r.env_vars@) == string_pairs_view(req.env@),
{
    let ctx = EvaluationContext::new(req).context(parent, args);
    if directives.len() > 0 {
        let vars = clone_string_pairs(&directives[0].arguments);
        ctx.env(vars)
    } else {
        ctx
    }
}

} // verus!
