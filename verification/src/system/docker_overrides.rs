//! Extra `docker run` arguments configured for each persona.

use vstd::prelude::*;

use crate::models::DockerOverrides;
use crate::system::codex_config::AgentKind;
use crate::text::{clone_strings, str_eq, strings_view};

verus! {

/// The configured extra arguments of each persona.
pub struct OverridesStore {
    orchestrator: Vec<String>,
    worker: Vec<String>,
    wizard: Vec<String>,
}

/// Where extra arguments go in a `docker run` command line: before the
/// first argument equal to the image, or at the end when there is none.
pub open spec fn insert_position(args: Seq<Seq<char>>, image: Seq<char>) -> int
    decreases args.len(),
{
    if args.len() == 0 {
        0
    } else if args[0] == image {
        0
    } else {
        1 + insert_position(args.drop_first(), image)
    }
}

/// `args` with `extra` inserted before the image.
pub open spec fn with_overrides(args: Seq<Seq<char>>, extra: Seq<Seq<char>>, image: Seq<char>) -> Seq<
    Seq<char>,
> {
    let at = insert_position(args, image);
    args.take(at) + extra + args.skip(at)
}

/// What `insert_position` gives: the first index holding the image, or the
/// length.
pub proof fn lemma_insert_position(args: Seq<Seq<char>>, image: Seq<char>)
    ensures
        0 <= insert_position(args, image) <= args.len(),
        forall|j: int| 0 <= j < insert_position(args, image) ==> args[j] != image,
        insert_position(args, image) < args.len() ==> args[insert_position(args, image)]
            == image,
    decreases args.len(),
{
    if args.len() > 0 && args[0] != image {
        lemma_insert_position(args.drop_first(), image);
        assert forall|j: int| 0 <= j < insert_position(args, image) implies args[j] != image by {
            if j > 0 {
                assert(args[j] == args.drop_first()[j - 1]);
            }
        }
    }
}

proof fn lemma_insert_position_is(args: Seq<Seq<char>>, image: Seq<char>, k: int)
    requires
        0 <= k <= args.len(),
        forall|j: int| 0 <= j < k ==> args[j] != image,
        k < args.len() ==> args[k] == image,
    ensures
        insert_position(args, image) == k,
    decreases args.len(),
{
    if k > 0 {
        assert(args[0] != image);
        assert forall|j: int| 0 <= j < k - 1 implies args.drop_first()[j] != image by {
            assert(args.drop_first()[j] == args[j + 1]);
        }
        lemma_insert_position_is(args.drop_first(), image, k - 1);
    }
}

impl OverridesStore {
    /// No extra arguments for any persona.
    pub fn new() -> (r: Self)
        ensures
            r.overrides_spec(AgentKind::Orchestrator) == Seq::<Seq<char>>::empty(),
            r.overrides_spec(AgentKind::Worker) == Seq::<Seq<char>>::empty(),
            r.overrides_spec(AgentKind::Wizard) == Seq::<Seq<char>>::empty(),
    {
        let r = OverridesStore { orchestrator: Vec::new(), worker: Vec::new(), wizard: Vec::new() };
        assert(strings_view(r.orchestrator@) =~= Seq::<Seq<char>>::empty());
        assert(strings_view(r.worker@) =~= Seq::<Seq<char>>::empty());
        assert(strings_view(r.wizard@) =~= Seq::<Seq<char>>::empty());
        r
    }

    /// The extra arguments of persona `kind`.
    pub closed spec fn overrides_spec(&self, kind: AgentKind) -> Seq<Seq<char>> {
        match kind {
            AgentKind::Orchestrator => strings_view(self.orchestrator@),
            AgentKind::Worker => strings_view(self.worker@),
            AgentKind::Wizard => strings_view(self.wizard@),
        }
    }

    /// Drops every extra argument.
    pub fn reset(&mut self)
        ensures
            final(self).overrides_spec(AgentKind::Orchestrator) == Seq::<Seq<char>>::empty(),
            final(self).overrides_spec(AgentKind::Worker) == Seq::<Seq<char>>::empty(),
            final(self).overrides_spec(AgentKind::Wizard) == Seq::<Seq<char>>::empty(),
    {
        *self = OverridesStore::new();
    }

    /// Takes the extra arguments of a new configuration.
    pub fn replace(&mut self, overrides: DockerOverrides)
        ensures
            final(self).overrides_spec(AgentKind::Orchestrator) == strings_view(
                overrides.orchestrator@,
            ),
            final(self).overrides_spec(AgentKind::Worker) == strings_view(overrides.worker@),
            final(self).overrides_spec(AgentKind::Wizard) == strings_view(overrides.wizard@),
    {
        self.orchestrator = overrides.orchestrator;
        self.worker = overrides.worker;
        self.wizard = overrides.wizard;
    }

    /// The extra arguments of persona `kind`.
    pub fn overrides_for(&self, kind: AgentKind) -> (r: Vec<String>)
        ensures
            strings_view(r@) == self.overrides_spec(kind),
    {
        match kind {
            AgentKind::Orchestrator => clone_strings(&self.orchestrator),
            AgentKind::Worker => clone_strings(&self.worker),
            AgentKind::Wizard => clone_strings(&self.wizard),
        }
    }

    /// Inserts persona `kind`'s extra arguments into the `docker run`
    /// command line `args`, just before the image (or at the end when the
    /// image is not among them); nothing changes when there are none.
    pub fn apply_overrides(&self, kind: AgentKind, args: &mut Vec<String>, image: &str)
        ensures
            strings_view(final(args)@) == with_overrides(
                strings_view(old(args)@),
                self.overrides_spec(kind),
                image@,
            ),
    {
        let ghost a0 = strings_view(args@);
        let overrides = self.overrides_for(kind);
        let ghost ov = strings_view(overrides@);
        proof {
            lemma_insert_position(a0, image@);
        }
        if overrides.len() == 0 {
            assert(a0.take(insert_position(a0, image@)) + ov + a0.skip(insert_position(a0, image@))
                =~= a0);
            return;
        }
        let mut at: usize = 0;
        while at < args.len() && !str_eq(args[at].as_str(), image)
            invariant
                at <= args@.len(),
                a0 == strings_view(args@),
                forall|j: int| 0 <= j < at ==> a0[j] != image@,
            decreases args@.len() - at,
        {
            at = at + 1;
        }
        proof {
            lemma_insert_position_is(a0, image@, at as int);
        }
        let mut i: usize = 0;
        while i < overrides.len()
            invariant
                i <= overrides@.len(),
                at as int == insert_position(a0, image@),
                at <= a0.len(),
                ov == strings_view(overrides@),
                args@.len() == a0.len() + i,
                strings_view(args@) == a0.take(at as int) + ov.take(i as int) + a0.skip(at as int),
            decreases overrides@.len() - i,
        {
            let ghost before = strings_view(args@);
            let n = args.len();
            assert(at + i <= n);
            args.insert(at + i, crate::text::owned(overrides[i].as_str()));
            assert(strings_view(args@) =~= before.insert(at + i, ov[i as int]));
            assert(ov.take(i + 1) =~= ov.take(i as int).push(ov[i as int]));
            assert(strings_view(args@) =~= a0.take(at as int) + ov.take(i + 1) + a0.skip(at as int));
            i = i + 1;
        }
        assert(ov.take(i as int) =~= ov);
    }
}


/// Inserting extra arguments keeps every original argument in its order,
/// and puts the extra ones, in their order, right before the image (at the
/// end when the image is absent).
pub proof fn lemma_overrides_before_image(
    args: Seq<Seq<char>>,
    extra: Seq<Seq<char>>,
    image: Seq<char>,
)
    ensures
        ({
            let r = with_overrides(args, extra, image);
            let at = insert_position(args, image);
            &&& r.len() == args.len() + extra.len()
            &&& r.subrange(at, at + extra.len()) == extra
            &&& r.take(at) + r.skip(at + extra.len()) == args
            &&& at < args.len() ==> r[at + extra.len()] == image
            &&& at == args.len() ==> forall|j: int| 0 <= j < args.len() ==> args[j] != image
        }),
{
    lemma_insert_position(args, image);
    let r = with_overrides(args, extra, image);
    let at = insert_position(args, image);
    assert(r.subrange(at, at + extra.len()) =~= extra);
    assert(r.take(at) + r.skip(at + extra.len()) =~= args);
    if at < args.len() {
        assert(r[at + extra.len()] == args.skip(at)[0]);
    }
}

} // verus!
