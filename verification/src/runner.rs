//! Projections and the runner that feeds them: tenant pinning, strictly
//! increasing sequence numbers, and a cursor of progress.
use vstd::prelude::*;

use crate::common::TenantId;
use crate::events::EventEnvelope;

verus! {

/// A read model built from an event stream, one envelope at a time.
pub trait Projection: Sized {
    type Ev;

    /// The projection after one more envelope.
    spec fn after(self, envelope: EventEnvelope<Self::Ev>) -> Self;

    /// Apply one envelope.
    fn apply(&mut self, envelope: &EventEnvelope<Self::Ev>)
        ensures
            *final(self) == old(self).after(*envelope),
    ;
}

/// How far a runner got: the tenant and the last sequence number applied.
#[derive(Debug, Clone, Copy, PartialEq, Eq, Structural)]
pub struct ProjectionCursor {
    tenant_id: TenantId,
    last_sequence_number: u64,
}

impl ProjectionCursor {
    pub closed spec fn spec_tenant_id(&self) -> TenantId {
        self.tenant_id
    }

    pub closed spec fn spec_last(&self) -> u64 {
        self.last_sequence_number
    }

    pub closed spec fn at(tenant_id: TenantId, last: u64) -> ProjectionCursor {
        ProjectionCursor { tenant_id, last_sequence_number: last }
    }

    pub fn tenant_id(&self) -> (r: TenantId)
        ensures
            r == self.spec_tenant_id(),
    {
        self.tenant_id
    }

    pub fn last_sequence_number(&self) -> (r: u64)
        ensures
            r == self.spec_last(),
    {
        self.last_sequence_number
    }
}

pub proof fn lemma_cursor_at(tenant_id: TenantId, last: u64)
    ensures
        ProjectionCursor::at(tenant_id, last).spec_tenant_id() == tenant_id,
        ProjectionCursor::at(tenant_id, last).spec_last() == last,
{
}

/// Why the runner refused an envelope.
#[derive(Debug, Clone, Copy, PartialEq, Eq, Structural)]
pub enum ProjectionError {
    TenantMismatch { expected: TenantId, found: TenantId },
    NonMonotonicSequence { last: u64, found: u64 },
}

/// The cursor after accepting an envelope of `tenant` at `seq`, or why it is
/// refused: the first envelope is always accepted; later ones must be of the
/// cursor's tenant and come after its last sequence number.
pub open spec fn advance(cursor: Option<ProjectionCursor>, tenant: TenantId, seq: u64) -> Result<ProjectionCursor, ProjectionError> {
    match cursor {
        None => Ok(ProjectionCursor::at(tenant, seq)),
        Some(c) => if c.spec_tenant_id() != tenant {
            Err(ProjectionError::TenantMismatch { expected: c.spec_tenant_id(), found: tenant })
        } else if seq <= c.spec_last() {
            Err(ProjectionError::NonMonotonicSequence { last: c.spec_last(), found: seq })
        } else {
            Ok(ProjectionCursor::at(tenant, seq))
        },
    }
}

/// Running envelopes `i..` in order: each accepted one is applied and moves
/// the cursor; the first refused one stops the run with its error.
pub open spec fn run_from<P: Projection>(
    projection: P,
    cursor: Option<ProjectionCursor>,
    envs: Seq<EventEnvelope<P::Ev>>,
    i: int,
) -> (P, Option<ProjectionCursor>, Result<(), ProjectionError>)
    decreases envs.len() - i,
{
    if i < 0 || i >= envs.len() {
        (projection, cursor, Ok(()))
    } else {
        match advance(cursor, envs[i].spec_tenant_id(), envs[i].spec_sequence_number()) {
            Err(e) => (projection, cursor, Err(e)),
            Ok(c) => run_from(projection.after(envs[i]), Some(c), envs, i + 1),
        }
    }
}

/// What rebuilding a fresh projection from the envelopes gives: the
/// projection and cursor after all of them, or the first refusal.
pub open spec fn rebuilt<P: Projection>(
    fresh: P,
    envs: Seq<EventEnvelope<P::Ev>>,
    r: Result<(P, Option<ProjectionCursor>), ProjectionError>,
) -> bool {
    let ran = run_from(fresh, None, envs, 0);
    match r {
        Ok((p, c)) => ran.2 is Ok && ran.0 == p && ran.1 == c,
        Err(e) => ran.2 == Err::<(), ProjectionError>(e),
    }
}

/// Runs envelopes through a projection, keeping a cursor.
#[derive(Debug)]
pub struct ProjectionRunner<P> {
    projection: P,
    cursor: Option<ProjectionCursor>,
}

impl<P: Projection> ProjectionRunner<P> {
    pub closed spec fn spec_projection(&self) -> P {
        self.projection
    }

    pub closed spec fn spec_cursor(&self) -> Option<ProjectionCursor> {
        self.cursor
    }

    pub fn new(projection: P) -> (r: ProjectionRunner<P>)
        ensures
            r.spec_projection() == projection,
            r.spec_cursor() is None,
    {
        ProjectionRunner { projection, cursor: None }
    }

    /// A runner that accepts only the tenant's envelopes.
    pub fn new_for_tenant(tenant_id: TenantId, projection: P) -> (r: ProjectionRunner<P>)
        ensures
            r.spec_projection() == projection,
            r.spec_cursor() == Some(ProjectionCursor::at(tenant_id, 0)),
    {
        ProjectionRunner {
            projection,
            cursor: Some(ProjectionCursor { tenant_id, last_sequence_number: 0 }),
        }
    }

    pub fn projection(&self) -> (r: &P)
        ensures
            *r == self.spec_projection(),
    {
        &self.projection
    }

    /// Mutable access to the projection; the cursor is left as it is.
    pub fn projection_mut(&mut self) -> (r: &mut P)
        ensures
            *r == old(self).spec_projection(),
            final(self).spec_projection() == *final(r),
            final(self).spec_cursor() == old(self).spec_cursor(),
    {
        &mut self.projection
    }

    pub fn into_projection(self) -> (r: P)
        ensures
            r == self.spec_projection(),
    {
        self.projection
    }

    pub fn cursor(&self) -> (r: Option<ProjectionCursor>)
        ensures
            r == self.spec_cursor(),
    {
        self.cursor
    }

    /// Apply one envelope if the cursor accepts it.
    pub fn apply(&mut self, envelope: &EventEnvelope<P::Ev>) -> (r: Result<(), ProjectionError>)
        ensures
            match advance(old(self).spec_cursor(), envelope.spec_tenant_id(), envelope.spec_sequence_number()) {
                Ok(c) => r is Ok && final(self).spec_cursor() == Some(c) && final(self).spec_projection()
                    == old(self).spec_projection().after(*envelope),
                Err(e) => r == Err::<(), ProjectionError>(e) && final(self).spec_cursor() == old(self).spec_cursor()
                    && final(self).spec_projection() == old(self).spec_projection(),
            },
    {
        let found_tenant = envelope.tenant_id();
        let found_seq = envelope.sequence_number();
        match self.cursor {
            None => {
                self.projection.apply(envelope);
                self.cursor = Some(ProjectionCursor { tenant_id: found_tenant, last_sequence_number: found_seq });
                Ok(())
            },
            Some(c) => {
                if c.tenant_id != found_tenant {
                    return Err(ProjectionError::TenantMismatch { expected: c.tenant_id, found: found_tenant });
                }
                if found_seq <= c.last_sequence_number {
                    return Err(
                        ProjectionError::NonMonotonicSequence { last: c.last_sequence_number, found: found_seq },
                    );
                }
                self.projection.apply(envelope);
                self.cursor = Some(ProjectionCursor { tenant_id: c.tenant_id, last_sequence_number: found_seq });
                Ok(())
            },
        }
    }

    /// Apply envelopes in order, stopping at the first refused one.
    pub fn run(&mut self, envelopes: &Vec<EventEnvelope<P::Ev>>) -> (r: Result<(), ProjectionError>)
        ensures
            run_from(old(self).spec_projection(), old(self).spec_cursor(), envelopes@, 0) == (
                final(self).spec_projection(),
                final(self).spec_cursor(),
                r,
            ),
    {
        let mut i: usize = 0;
        while i < envelopes.len()
            invariant
                i <= envelopes@.len(),
                run_from(old(self).spec_projection(), old(self).spec_cursor(), envelopes@, 0) == run_from(
                    self.spec_projection(),
                    self.spec_cursor(),
                    envelopes@,
                    i as int,
                ),
            decreases envelopes@.len() - i,
        {
            match self.apply(&envelopes[i]) {
                Ok(()) => {},
                Err(e) => {
                    return Err(e);
                },
            }
            i = i + 1;
        }
        Ok(())
    }

    /// A fresh projection from `factory`, with all the envelopes run through
    /// it.
    pub fn rebuild_from_scratch<F: FnOnce() -> P>(factory: F, envelopes: &Vec<EventEnvelope<P::Ev>>) -> (r: Result<
        (P, Option<ProjectionCursor>),
        ProjectionError,
    >)
        requires
            factory.requires(()),
        ensures
            exists|fresh: P| factory.ensures((), fresh) && #[trigger] rebuilt(fresh, envelopes@, r),
    {
        let fresh = factory();
        let ghost f0 = fresh;
        let mut runner = ProjectionRunner::new(fresh);
        let r = runner.run(envelopes);
        let out = match r {
            Ok(()) => Ok((runner.projection, runner.cursor)),
            Err(e) => Err(e),
        };
        assert(rebuilt(f0, envelopes@, out));
        out
    }
}

/// Exactly once within a runner: an envelope the cursor accepted is
/// refused when it comes again, as not after the last one applied.
pub proof fn law_runner_refuses_redelivery(cursor: Option<ProjectionCursor>, tenant: TenantId, seq: u64)
    requires
        advance(cursor, tenant, seq) is Ok,
    ensures
        advance(Some(advance(cursor, tenant, seq)->Ok_0), tenant, seq) == Err::<ProjectionCursor, ProjectionError>(
            ProjectionError::NonMonotonicSequence { last: seq, found: seq },
        ),
{
}

/// Tenant pinning: a runner whose cursor belongs to a tenant refuses every
/// envelope of another tenant.
pub proof fn law_runner_pins_tenant(c: ProjectionCursor, tenant: TenantId, seq: u64)
    requires
        c.spec_tenant_id() != tenant,
    ensures
        advance(Some(c), tenant, seq) == Err::<ProjectionCursor, ProjectionError>(
            ProjectionError::TenantMismatch { expected: c.spec_tenant_id(), found: tenant },
        ),
{
}

} // verus!
