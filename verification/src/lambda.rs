//! Expression evaluation around the upstream HTTP-call operator: the
//! per-field evaluation context, the descriptor an expression issues, and
//! the mapping from a shared load outcome to the field's value or error.
//!
//! The expression language at large is an external collaborator; this core
//! fixes its invocation contract: evaluation is given an explicit context,
//! issues upstream calls only through the request context's data loader,
//! and yields either a GraphQL-compatible value or a typed failure.

use vstd::prelude::*;

use crate::blueprint::Expression;
use crate::data_loader::LoadResult;
use crate::data_loader::RequestContext;
use crate::http::clone_string_pairs;
use crate::http::string_pairs_view;
use crate::http::RequestDescriptor;
use crate::value::Value;

verus! {

/// A failure raised while resolving a single field. It stays local to the
/// field: siblings keep resolving, and the surrounding executor attaches
/// the error at the field's path.
#[derive(Debug)]
pub enum ResolutionError {
    /// The upstream call completed with a status outside the success
    /// range.
    UpstreamStatus(u16),
    /// The upstream call did not complete: the shared transport fault.
    Transport(String),
}

impl ResolutionError {
    /// A human-readable rendering of the failure.
    pub fn message(&self) -> (r: String)
        ensures
            self matches ResolutionError::Transport(m) ==> r@ == m@,
    {
        match self {
            ResolutionError::UpstreamStatus(_) => String::from_str("upstream status error"),
            ResolutionError::Transport(m) => m.clone(),
        }
    }
}

/// The per-field-resolution bundle handed to the expression evaluator:
/// the current parent value, the field's arguments, and the ambient
/// environment entries, all explicit. It never outlives a single resolver
/// invocation.
pub struct EvaluationContext<'a> {
    pub parent: Option<&'a Value>,
    pub args: Option<&'a Vec<(String, Value)>>,
    pub env_vars: Vec<(String, String)>,
}

impl<'a> EvaluationContext<'a> {
    /// A fresh context scoped to one resolver invocation, seeded with the
    /// request context's ambient environment.
    pub fn new(req: &RequestContext) -> (r: EvaluationContext<'a>)
        ensures
            string_pairs_view(r.env_vars@) == string_pairs_view(req.env@),
            r.parent is None,
            r.args is None,
    {
        EvaluationContext { parent: None, args: None, env_vars: clone_string_pairs(&req.env) }
    }

    /// Attach the current execution node: the parent value and the
    /// field's collected arguments.
    pub fn context(self, parent: &'a Value, args: &'a Vec<(String, Value)>) -> (r:
        EvaluationContext<'a>)
        ensures
            r.parent matches Some(p) && p == parent,
            r.args matches Some(a) && a == args,
            r.env_vars == self.env_vars,
    {
        EvaluationContext { parent: Some(parent), args: Some(args), env_vars: self.env_vars }
    }

    /// Merge ambient entries into the evaluation environment. The merge
    /// policy is explicit: the given entries are placed before the ones
    /// already held, so a first-match lookup prefers them.
    pub fn env(self, vars: Vec<(String, String)>) -> (r: EvaluationContext<'a>)
        ensures
            string_pairs_view(r.env_vars@) == string_pairs_view(vars@) + string_pairs_view(
                self.env_vars@,
            ),
            r.parent == self.parent,
            r.args == self.args,
    {
        let mut merged = vars;
        let mut rest = self.env_vars;
        let ghost vars_snap = merged@;
        let ghost rest_snap = rest@;
        merged.append(&mut rest);
        proof {
            assert(merged@ == vars_snap + rest_snap);
            assert(string_pairs_view(vars_snap + rest_snap) =~= string_pairs_view(vars_snap)
                + string_pairs_view(rest_snap));
        }
        EvaluationContext { parent: self.parent, args: self.args, env_vars: merged }
    }

    /// The first environment entry with the given name, where one exists:
    /// how resolvers consume ambient environment variables.
    #[verifier::loop_isolation(false)]
    pub fn get_env<'b>(&'b self, name: &String) -> (r: Option<&'b String>)
        ensures
            match r {
                Some(v) => env_lookup(string_pairs_view(self.env_vars@), name@) == Some(v@),
                None => env_lookup(string_pairs_view(self.env_vars@), name@) is None,
            },
    {
        let n = self.env_vars.len();
        let mut i: usize = 0;
        while i < n
            invariant
                i <= n,
                forall|m: int| 0 <= m < i ==> (#[trigger] self.env_vars@[m]).0@ != name@,
            decreases n - i,
        {
            if self.env_vars[i].0.eq(name) {
                proof {
                    lemma_env_lookup_step(string_pairs_view(self.env_vars@), name@, i as int);
                }
                return Some(&self.env_vars[i].1);
            }
            i += 1;
        }
        proof {
            lemma_env_lookup_absent(string_pairs_view(self.env_vars@), name@);
        }
        None
    }
}

/// The first entry with the given name in an environment view.
pub open spec fn env_lookup(env: Seq<(Seq<char>, Seq<char>)>, name: Seq<char>) -> Option<Seq<char>>
    decreases env.len(),
{
    if env.len() == 0 {
        None
    } else if env[0].0 == name {
        Some(env[0].1)
    } else {
        env_lookup(env.drop_first(), name)
    }
}

proof fn lemma_env_lookup_step(env: Seq<(Seq<char>, Seq<char>)>, name: Seq<char>, i: int)
    requires
        0 <= i < env.len(),
        forall|m: int| 0 <= m < i ==> (#[trigger] env[m]).0 != name,
    ensures
        env[i].0 == name ==> env_lookup(env, name) == Some(env[i].1),
    decreases i,
{
    if i > 0 {
        assert(forall|m: int| 0 <= m < i - 1 ==> (#[trigger] env.drop_first()[m]) == env[m + 1]);
        lemma_env_lookup_step(env.drop_first(), name, i - 1);
        assert(env.drop_first()[i - 1] == env[i]);
    }
}

proof fn lemma_env_lookup_absent(env: Seq<(Seq<char>, Seq<char>)>, name: Seq<char>)
    requires
        forall|m: int| 0 <= m < env.len() ==> (#[trigger] env[m]).0 != name,
    ensures
        env_lookup(env, name) is None,
    decreases env.len(),
{
    if env.len() > 0 {
        assert(forall|m: int|
            0 <= m < env.len() - 1 ==> (#[trigger] env.drop_first()[m]) == env[m + 1]);
        lemma_env_lookup_absent(env.drop_first(), name);
    }
}

/// The success range of an upstream status: any other status resolves the
/// field to an error.
pub open spec fn status_ok(status: u16) -> bool {
    200 <= status < 300
}

impl Expression {
    /// The upstream call this expression's evaluation issues. The
    /// descriptor is the canonical deduplication key: evaluation reaches
    /// the network only through the data loader under this descriptor.
    pub fn descriptor<'a>(&'a self) -> (r: &'a RequestDescriptor)
        ensures
            *self matches Expression::Http(d) && *r == d,
    {
        match self {
            Expression::Http(d) => d,
        }
    }
}

/// Turn the shared outcome of the one upstream call into this field's
/// result: a successful response within the success status range yields
/// its decoded body, any other status yields a status error, and a
/// transport fault yields a transport error. Every coalesced caller maps
/// the same outcome, so all of them resolve consistently.
pub fn evaluate_outcome<'a>(outcome: &'a LoadResult) -> (r: Result<&'a Value, ResolutionError>)
    ensures
        match *outcome {
            LoadResult::Success(resp) => {
                if status_ok(resp.status) {
                    r matches Ok(v) && *v == resp.body
                } else {
                    r matches Err(e) && e matches ResolutionError::UpstreamStatus(s) && s
                        == resp.status
                }
            },
            LoadResult::Fault(m) => r matches Err(e) && e matches ResolutionError::Transport(msg)
                && msg@ == m@,
        },
{
    match outcome {
        LoadResult::Success(resp) => {
            if 200 <= resp.status && resp.status < 300 {
                Ok(&resp.body)
            } else {
                Err(ResolutionError::UpstreamStatus(resp.status))
            }
        },
        LoadResult::Fault(m) => Err(ResolutionError::Transport(m.clone())),
    }
}

} // verus!
