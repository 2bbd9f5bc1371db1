//! Starting a resource after everything that it depends on.

use vstd::prelude::*;

use crate::bhyve;
use crate::config::{JAIL_BASE, VM_BASE};
use crate::dependency;
use crate::dependency::ResourceKind;
use crate::error::Error;
use crate::jail;
use crate::snapshot;
use crate::snapshot::Snapshot;
use crate::text;
use crate::text::{owned, same};

verus! {

// ---------------------------------------------------------------------------
// The model
// ---------------------------------------------------------------------------

/// What the host is asked.
pub enum Question {
    /// Is the resource running?
    Running { kind: ResourceKind, name: Seq<char>, seed: bool },
    /// What does the resource depend on?
    Dependencies { kind: ResourceKind, name: Seq<char>, seed: bool },
    /// Of which kind is the resource with this name, if there is one?
    Locate { name: Seq<char> },
    /// Start the resource.
    Start { kind: ResourceKind, name: Seq<char>, seed: bool },
    /// Nothing: the resource is running.
    Finished,
    /// Nothing: the resource cannot be started.
    Failed { reason: Seq<char> },
}

/// What the host answers.
pub enum Reply {
    Flag(bool),
    Names(Seq<Seq<char>>),
    Place(Option<ResourceKind>),
    Done,
    Failed(Seq<char>),
}

/// A resource whose dependencies are being started.
pub struct FrameModel {
    pub kind: ResourceKind,
    pub name: Seq<char>,
    pub seed: bool,
    pub dependencies: Seq<Seq<char>>,
    /// How many of the dependencies are up.
    pub next: nat,
}

/// Where the start of a resource stands.
pub struct LaunchModel {
    /// The resources that are being started, each for the sake of the one before it.
    pub frames: Seq<FrameModel>,
    /// What the host is asked.
    pub question: Question,
    /// The names that were found running or have been started.
    pub up: Set<Seq<char>>,
}

/// The beginning of a start.
pub open spec fn begin(kind: ResourceKind, name: Seq<char>, seed: bool) -> LaunchModel {
    LaunchModel {
        frames: seq![],
        question: Question::Running { kind, name, seed },
        up: Set::empty(),
    }
}

/// Whether one of the resources that are being started has this name.
pub open spec fn is_open(frames: Seq<FrameModel>, name: Seq<char>) -> bool {
    exists|i: int| 0 <= i < frames.len() && (#[trigger] frames[i]).name == name
}

/// What is asked next for the innermost resource: where its next dependency is, or that
/// it be started.
pub open spec fn next_question(frames: Seq<FrameModel>) -> Question {
    let frame = frames.last();
    if frame.next < frame.dependencies.len() {
        Question::Locate { name: frame.dependencies[frame.next as int] }
    } else {
        Question::Start { kind: frame.kind, name: frame.name, seed: frame.seed }
    }
}

/// A resource has turned out to be up, or has been started.
pub open spec fn arrived(launch: LaunchModel, name: Seq<char>) -> LaunchModel {
    let up = launch.up.insert(name);
    if launch.frames.len() == 0 {
        LaunchModel { question: Question::Finished, up, ..launch }
    } else {
        let frame = launch.frames.last();
        let frames = launch.frames.drop_last().push(FrameModel { next: frame.next + 1, ..frame });
        LaunchModel { frames, question: next_question(frames), up }
    }
}

/// The start is given up.
pub open spec fn give_up(launch: LaunchModel, reason: Seq<char>) -> LaunchModel {
    LaunchModel { question: Question::Failed { reason }, ..launch }
}

/// Where the start stands after an answer. An answer that does not fit the question
/// changes nothing.
pub open spec fn answered(launch: LaunchModel, reply: Reply) -> LaunchModel {
    match (launch.question, reply) {
        (Question::Running { kind, name, seed }, Reply::Flag(running)) => if running {
            arrived(launch, name)
        } else if is_open(launch.frames, name) {
            give_up(launch, dependency::cycle_message(name))
        } else {
            LaunchModel { question: Question::Dependencies { kind, name, seed }, ..launch }
        },
        (Question::Dependencies { kind, name, seed }, Reply::Names(dependencies)) => {
            let frames = launch.frames.push(
                FrameModel { kind, name, seed, dependencies, next: 0 },
            );
            LaunchModel { frames, question: next_question(frames), ..launch }
        },
        (Question::Dependencies { kind, name, seed }, Reply::Failed(reason)) => give_up(
            launch,
            reason,
        ),
        (Question::Locate { name }, Reply::Place(Some(kind))) => LaunchModel {
            question: Question::Running { kind, name, seed: false },
            ..launch
        },
        (Question::Locate { name }, Reply::Place(None)) => give_up(
            launch,
            dependency::missing_message(name),
        ),
        (Question::Start { kind, name, seed }, Reply::Done) => arrived(
            LaunchModel { frames: launch.frames.drop_last(), ..launch },
            name,
        ),
        (Question::Start { kind, name, seed }, Reply::Failed(reason)) => give_up(launch, reason),
        _ => launch,
    }
}

/// Where the start stands after a list of answers.
pub open spec fn answered_all(launch: LaunchModel, replies: Seq<Reply>) -> LaunchModel
    decreases replies.len(),
{
    if replies.len() == 0 {
        launch
    } else {
        answered(answered_all(launch, replies.drop_last()), replies.last())
    }
}

/// Whether a resource waits for this name: it is the next of its dependencies.
pub open spec fn waits_at(frame: FrameModel, name: Seq<char>) -> bool {
    frame.next < frame.dependencies.len() && frame.dependencies[frame.next as int] == name
}

/// What holds at every point of a start.
pub open spec fn is_consistent(launch: LaunchModel) -> bool {
    let frames = launch.frames;
    &&& forall|i: int|
        0 <= i < frames.len() ==> (#[trigger] frames[i]).next <= frames[i].dependencies.len()
    &&& forall|i: int, j: int|
        0 <= i < frames.len() && 0 <= j < frames[i].next ==> launch.up.contains(
            #[trigger] frames[i].dependencies[j],
        )
    &&& forall|i: int, j: int|
        0 <= i < j < frames.len() ==> (#[trigger] frames[i]).name != (#[trigger] frames[j]).name
    &&& forall|i: int, j: int|
        0 <= i < j < frames.len() && j == i + 1 ==> waits_at(
            #[trigger] frames[i],
            (#[trigger] frames[j]).name,
        )
    &&& match launch.question {
        Question::Running { name, .. } => frames.len() > 0 ==> waits_at(frames.last(), name),
        Question::Dependencies { name, .. } => !is_open(frames, name) && (frames.len() > 0
            ==> waits_at(frames.last(), name)),
        Question::Locate { name } => frames.len() > 0 && waits_at(frames.last(), name),
        Question::Start { name, .. } => frames.len() > 0 && frames.last().name == name
            && frames.last().next == frames.last().dependencies.len(),
        Question::Finished => frames.len() == 0,
        Question::Failed { .. } => true,
    }
}

proof fn lemma_arrived_consistent(launch: LaunchModel, name: Seq<char>)
    requires
        is_consistent(LaunchModel { question: Question::Failed { reason: seq![] }, ..launch }),
        launch.frames.len() > 0 ==> waits_at(launch.frames.last(), name),
    ensures
        is_consistent(arrived(launch, name)),
{
    let after = arrived(launch, name);
    if launch.frames.len() > 0 {
        let frames = launch.frames;
        let last = frames.len() - 1;
        assert forall|i: int, j: int|
            0 <= i < after.frames.len() && 0 <= j < after.frames[i].next implies after.up.contains(
            #[trigger] after.frames[i].dependencies[j],
        ) by {
            if i < last {
                assert(launch.up.contains(frames[i].dependencies[j]));
            } else if j < frames[last].next {
                assert(launch.up.contains(frames[last].dependencies[j]));
            }
        }
        assert forall|i: int, j: int| 0 <= i < j < after.frames.len() implies (
        #[trigger] after.frames[i]).name != (#[trigger] after.frames[j]).name by {
            assert(frames[i].name != frames[j].name);
        }
        assert forall|i: int, j: int| 0 <= i < j < after.frames.len() && j == i + 1 implies waits_at(
            #[trigger] after.frames[i],
            (#[trigger] after.frames[j]).name,
        ) by {
            assert(waits_at(frames[i], frames[j].name));
        }
    }
}

proof fn lemma_answer_consistent(launch: LaunchModel, reply: Reply)
    requires
        is_consistent(launch),
    ensures
        is_consistent(answered(launch, reply)),
{
    let after = answered(launch, reply);
    let frames = launch.frames;
    match (launch.question, reply) {
        (Question::Running { kind, name, seed }, Reply::Flag(running)) => {
            if running {
                lemma_arrived_consistent(launch, name);
            }
        },
        (Question::Dependencies { kind, name, seed }, Reply::Names(dependencies)) => {
            assert forall|i: int, j: int| 0 <= i < j < after.frames.len() implies (
            #[trigger] after.frames[i]).name != (#[trigger] after.frames[j]).name by {
                if j < frames.len() {
                    assert(frames[i].name != frames[j].name);
                } else {
                    assert(frames[i].name != name);
                }
            }
            assert forall|i: int, j: int|
                0 <= i < after.frames.len() && 0 <= j < after.frames[i].next implies after.up.contains(
            #[trigger] after.frames[i].dependencies[j]) by {
                assert(launch.up.contains(frames[i].dependencies[j]));
            }
            assert forall|i: int, j: int|
                0 <= i < j < after.frames.len() && j == i + 1 implies waits_at(
                #[trigger] after.frames[i],
                (#[trigger] after.frames[j]).name,
            ) by {
                if j < frames.len() {
                    assert(waits_at(frames[i], frames[j].name));
                } else {
                    assert(frames[i] == frames.last());
                }
            }
        },
        (Question::Start { kind, name, seed }, Reply::Done) => {
            let shorter = LaunchModel { frames: launch.frames.drop_last(), ..launch };
            assert forall|i: int, j: int|
                0 <= i < shorter.frames.len() && 0 <= j < shorter.frames[i].next implies shorter.up.contains(
            #[trigger] shorter.frames[i].dependencies[j]) by {
                assert(launch.up.contains(frames[i].dependencies[j]));
            }
            assert forall|i: int, j: int| 0 <= i < j < shorter.frames.len() implies (
            #[trigger] shorter.frames[i]).name != (#[trigger] shorter.frames[j]).name by {
                assert(frames[i].name != frames[j].name);
            }
            assert forall|i: int, j: int|
                0 <= i < j < shorter.frames.len() && j == i + 1 implies waits_at(
                #[trigger] shorter.frames[i],
                (#[trigger] shorter.frames[j]).name,
            ) by {
                assert(waits_at(frames[i], frames[j].name));
            }
            if shorter.frames.len() > 0 {
                let i = shorter.frames.len() - 1;
                assert(waits_at(frames[i], frames[i + 1].name));
            }
            lemma_arrived_consistent(shorter, name);
        },
        _ => {},
    }
}

// ---------------------------------------------------------------------------
// Laws
// ---------------------------------------------------------------------------

/// A start is consistent at every point, whatever the host answers.
pub proof fn law_launch_is_consistent(
    kind: ResourceKind,
    name: Seq<char>,
    seed: bool,
    replies: Seq<Reply>,
)
    ensures
        is_consistent(answered_all(begin(kind, name, seed), replies)),
    decreases replies.len(),
{
    if replies.len() > 0 {
        law_launch_is_consistent(kind, name, seed, replies.drop_last());
        lemma_answer_consistent(
            answered_all(begin(kind, name, seed), replies.drop_last()),
            replies.last(),
        );
    }
}

/// Dependencies are started first: whenever the host is asked to start a resource, each
/// of its dependencies was found running or has been started.
pub proof fn law_dependencies_are_started_first(
    kind: ResourceKind,
    name: Seq<char>,
    seed: bool,
    replies: Seq<Reply>,
)
    ensures
        ({
            let launch = answered_all(begin(kind, name, seed), replies);
            launch.question matches Question::Start { name: started, .. } ==> {
                &&& launch.frames.len() > 0
                &&& launch.frames.last().name == started
                &&& forall|j: int|
                    0 <= j < launch.frames.last().dependencies.len() ==> launch.up.contains(
                        #[trigger] launch.frames.last().dependencies[j],
                    )
            }
        }),
{
    law_launch_is_consistent(kind, name, seed, replies);
    let launch = answered_all(begin(kind, name, seed), replies);
    if launch.frames.len() > 0 {
        let last = launch.frames.len() - 1;
        assert forall|j: int|
            launch.question is Start && 0 <= j < launch.frames.last().dependencies.len() implies launch.up.contains(
        #[trigger] launch.frames.last().dependencies[j]) by {
            assert(launch.up.contains(launch.frames[last].dependencies[j]));
        }
    }
}

/// Cycles are rejected: a resource that is not running and is already being started is
/// refused, and never asked to be started again.
pub proof fn law_cycles_are_rejected(launch: LaunchModel, kind: ResourceKind, name: Seq<char>, seed: bool)
    requires
        is_consistent(launch),
        launch.question == (Question::Running { kind, name, seed }),
        is_open(launch.frames, name),
    ensures
        answered(launch, Reply::Flag(false)).question == (Question::Failed {
            reason: dependency::cycle_message(name),
        }),
        exists|walk: Seq<Seq<char>>| #[trigger]
            is_walk(launch.frames, walk) && walk.first() == name && walk.last() == name,
{
    let frames = launch.frames;
    let at = choose|i: int| 0 <= i < frames.len() && (#[trigger] frames[i]).name == name;
    let walk = Seq::new(
        (frames.len() - at + 1) as nat,
        |i: int|
            if at + i < frames.len() {
                frames[at + i].name
            } else {
                name
            },
    );
    assert forall|i: int| 0 <= i < walk.len() - 1 implies #[trigger] waits_for(
        frames,
        walk[i],
        walk[i + 1],
    ) by {
        let k = at + i;
        assert(frames[k].name == walk[i]);
        if k + 1 < frames.len() {
            assert(waits_at(frames[k], frames[k + 1].name));
        } else {
            assert(frames[k] == frames.last());
        }
        assert(frames[k].dependencies[frames[k].next as int] == walk[i + 1]);
        assert(frames[k].dependencies.contains(walk[i + 1]));
    }
    assert(is_walk(frames, walk));
}

/// Whether one of the resources that are being started has the first name and depends on
/// the second.
pub open spec fn waits_for(frames: Seq<FrameModel>, name: Seq<char>, dependency: Seq<char>) -> bool {
    exists|i: int|
        0 <= i < frames.len() && (#[trigger] frames[i]).name == name
            && frames[i].dependencies.contains(dependency)
}

/// Whether each name of a list of at least two waits for the one behind it.
pub open spec fn is_walk(frames: Seq<FrameModel>, walk: Seq<Seq<char>>) -> bool {
    &&& walk.len() >= 2
    &&& forall|i: int| 0 <= i < walk.len() - 1 ==> #[trigger] waits_for(frames, walk[i], walk[i + 1])
}

/// A resource counts as up only after the host said that it runs, or that it was started.
pub proof fn law_up_means_reported(launch: LaunchModel, reply: Reply, name: Seq<char>)
    requires
        answered(launch, reply).up.contains(name),
        !launch.up.contains(name),
    ensures
        ({
            ||| launch.question matches Question::Running { name: asked, .. } && asked == name
                && reply == Reply::Flag(true)
            ||| launch.question matches Question::Start { name: asked, .. } && asked == name && reply
                == Reply::Done
        }),
{
}

/// Whether a start is that of a resource: the resource that the others are started for is
/// this one, and it alone is started with its seed volume, if it is at all.
pub open spec fn is_start_of(
    launch: LaunchModel,
    kind: ResourceKind,
    name: Seq<char>,
    seed: bool,
) -> bool {
    let frames = launch.frames;
    let own = (kind, name, seed);
    &&& frames.len() > 0 ==> (frames[0].kind, frames[0].name, frames[0].seed) == own
    &&& forall|i: int| 0 < i < frames.len() ==> !(#[trigger] frames[i]).seed
    &&& match launch.question {
        Question::Running { kind: k, name: n, seed: s } => if frames.len() == 0 {
            (k, n, s) == own
        } else {
            !s
        },
        Question::Dependencies { kind: k, name: n, seed: s } => if frames.len() == 0 {
            (k, n, s) == own
        } else {
            !s
        },
        Question::Locate { name: n } => frames.len() > 0,
        Question::Start { kind: k, name: n, seed: s } => frames.len() > 0 && (k, n, s) == (
            frames.last().kind,
            frames.last().name,
            frames.last().seed,
        ),
        Question::Finished => launch.up.contains(name),
        Question::Failed { .. } => true,
    }
}

/// A start is that of the resource it was begun for, whatever the host answers. So it is
/// finished only when that resource is up, the resource itself is started last, with the seed
/// volume exactly if one was asked for, and nothing that it depends on is started with one.
pub proof fn law_asked_resource_is_started(
    kind: ResourceKind,
    name: Seq<char>,
    seed: bool,
    replies: Seq<Reply>,
)
    ensures
        is_start_of(answered_all(begin(kind, name, seed), replies), kind, name, seed),
    decreases replies.len(),
{
    if replies.len() > 0 {
        let front = replies.drop_last();
        let before = answered_all(begin(kind, name, seed), front);
        law_asked_resource_is_started(kind, name, seed, front);
        law_launch_is_consistent(kind, name, seed, front);
        let after = answered(before, replies.last());
        assert(is_start_of(after, kind, name, seed));
    }
}

/// What stands in the way of a start is its reason: a dependency that is nowhere is named,
/// and what the host says of a start or of a list of dependencies is passed on. What is up
/// stays up.
pub proof fn law_obstacles_are_named(launch: LaunchModel, name: Seq<char>, reason: Seq<char>)
    ensures
        launch.question == (Question::Locate { name }) ==> {
            let given = answered(launch, Reply::Place(None)).question;
            &&& given is Failed
            &&& text::ends_with_spec(given->Failed_reason, name)
        },
        launch.question is Start || launch.question is Dependencies ==> answered(
            launch,
            Reply::Failed(reason),
        ).question == (Question::Failed { reason }),
        answered(launch, Reply::Failed(reason)).up == launch.up,
        launch.question == (Question::Locate { name }) ==> forall|kind: ResourceKind| #[trigger]
            answered(launch, Reply::Place(Some(kind))).question == (Question::Running {
                kind,
                name,
                seed: false,
            }),
{
    let given = dependency::missing_message(name);
    assert(given.skip(given.len() - name.len()) =~= name);
}

/// The dependencies of a resource that is not running are asked for, and what they are is
/// kept: each of them is looked for in turn, and only behind the last one the resource is
/// started.
pub proof fn law_dependencies_are_asked_for(
    launch: LaunchModel,
    kind: ResourceKind,
    name: Seq<char>,
    seed: bool,
    dependencies: Seq<Seq<char>>,
)
    ensures
        launch.question == (Question::Running { kind, name, seed }) && !is_open(
            launch.frames,
            name,
        ) ==> answered(launch, Reply::Flag(false)).question == (Question::Dependencies {
            kind,
            name,
            seed,
        }),
        launch.question == (Question::Dependencies { kind, name, seed }) ==> {
            let after = answered(launch, Reply::Names(dependencies));
            &&& after.frames.last().dependencies == dependencies
            &&& dependencies.len() > 0 ==> after.question == (Question::Locate {
                name: dependencies[0],
            })
            &&& dependencies.len() == 0 ==> after.question == (Question::Start { kind, name, seed })
        },
        launch.question is Running && launch.frames.len() > 0 && launch.frames.last().next + 1
            < launch.frames.last().dependencies.len() ==> answered(
            launch,
            Reply::Flag(true),
        ).question == (Question::Locate {
            name: launch.frames.last().dependencies[(launch.frames.last().next + 1) as int],
        }),
{
}

// ---------------------------------------------------------------------------
// The machine
// ---------------------------------------------------------------------------

/// What the host is asked.
pub enum Ask {
    /// Is the resource running?
    Running { kind: ResourceKind, name: String },
    /// What does the resource depend on?
    Dependencies { kind: ResourceKind, name: String },
    /// Of which kind is the resource with this name, if there is one? A jail counts
    /// before a virtual machine.
    Locate { name: String },
    /// Start the resource, with its seed volume if `seed` says so.
    Start { kind: ResourceKind, name: String, seed: bool },
    /// Nothing: the resource is running.
    Finished,
    /// Nothing: the resource cannot be started.
    Failed(Error),
}

/// Whether an ask puts a question.
pub open spec fn puts(ask: Ask, question: Question) -> bool {
    match (ask, question) {
        (Ask::Running { kind, name }, Question::Running { kind: k, name: n, seed }) => kind == k
            && name@ == n,
        (Ask::Dependencies { kind, name }, Question::Dependencies { kind: k, name: n, seed }) => kind
            == k && name@ == n,
        (Ask::Locate { name }, Question::Locate { name: n }) => name@ == n,
        (Ask::Start { kind, name, seed }, Question::Start { kind: k, name: n, seed: s }) => kind
            == k && name@ == n && seed == s,
        (Ask::Finished, Question::Finished) => true,
        (Ask::Failed(error), Question::Failed { reason }) => error@ == reason,
        _ => false,
    }
}

/// What the host answers.
pub enum Answer {
    /// Whether the resource is running.
    Flag(bool),
    /// What the resource depends on.
    Names(Vec<String>),
    /// The kind of the resource, if there is one.
    Place(Option<ResourceKind>),
    /// The resource was started.
    Done,
    /// What was asked could not be done.
    Failed(Error),
}

impl View for Answer {
    type V = Reply;

    open spec fn view(&self) -> Reply {
        match self {
            Answer::Flag(flag) => Reply::Flag(*flag),
            Answer::Names(names) => Reply::Names(text::views(names@)),
            Answer::Place(place) => Reply::Place(*place),
            Answer::Done => Reply::Done,
            Answer::Failed(error) => Reply::Failed(error@),
        }
    }
}

struct Frame {
    kind: ResourceKind,
    name: String,
    seed: bool,
    dependencies: Vec<String>,
    next: usize,
}

impl View for Frame {
    type V = FrameModel;

    closed spec fn view(&self) -> FrameModel {
        FrameModel {
            kind: self.kind,
            name: self.name@,
            seed: self.seed,
            dependencies: text::views(self.dependencies@),
            next: self.next as nat,
        }
    }
}

enum Waiting {
    Running { kind: ResourceKind, name: String, seed: bool },
    Dependencies { kind: ResourceKind, name: String, seed: bool },
    Locate,
    Start,
    Finished,
    Failed(Error),
}

/// The start of a resource, as a sequence of questions to the host.
pub struct Launch {
    frames: Vec<Frame>,
    waiting: Waiting,
    up: Ghost<Set<Seq<char>>>,
}

spec fn frame_views(frames: Seq<Frame>) -> Seq<FrameModel> {
    frames.map_values(|frame: Frame| frame@)
}

impl View for Launch {
    type V = LaunchModel;

    closed spec fn view(&self) -> LaunchModel {
        let frames = frame_views(self.frames@);
        LaunchModel {
            frames,
            question: match self.waiting {
                Waiting::Running { kind, name, seed } => Question::Running {
                    kind,
                    name: name@,
                    seed,
                },
                Waiting::Dependencies { kind, name, seed } => Question::Dependencies {
                    kind,
                    name: name@,
                    seed,
                },
                Waiting::Locate => next_question(frames),
                Waiting::Start => next_question(frames),
                Waiting::Finished => Question::Finished,
                Waiting::Failed(error) => Question::Failed { reason: error@ },
            },
            up: self.up@,
        }
    }
}

impl Launch {
    #[verifier::type_invariant]
    spec fn wf(self) -> bool {
        &&& is_consistent(self@)
        &&& self.waiting is Locate ==> self@.question is Locate && self.frames@.len() > 0
        &&& self.waiting is Start ==> self@.question is Start && self.frames@.len() > 0
    }

    /// Begins the start of a resource.
    pub fn new(kind: ResourceKind, name: &str, seed: bool) -> (launch: Launch)
        ensures
            launch@ == begin(kind, name@, seed),
    {
        let frames: Vec<Frame> = Vec::new();
        proof {
            assert(frame_views(frames@) =~= seq![]);
        }
        Launch {
            frames,
            waiting: Waiting::Running { kind, name: owned(name), seed },
            up: Ghost(Set::empty()),
        }
    }

    /// What the host is asked.
    pub fn ask(&self) -> (ask: Ask)
        ensures
            puts(ask, self@.question),
    {
        proof {
            use_type_invariant(self);
        }
        match &self.waiting {
            Waiting::Running { kind, name, .. } => Ask::Running {
                kind: *kind,
                name: owned(name.as_str()),
            },
            Waiting::Dependencies { kind, name, .. } => Ask::Dependencies {
                kind: *kind,
                name: owned(name.as_str()),
            },
            Waiting::Locate => {
                let frame = &self.frames[self.frames.len() - 1];
                proof {
                    assert(frame@ == self@.frames.last());
                    assert(text::views(frame.dependencies@)[frame.next as int]
                        == frame.dependencies@[frame.next as int]@);
                }
                Ask::Locate { name: owned(frame.dependencies[frame.next].as_str()) }
            },
            Waiting::Start => {
                let frame = &self.frames[self.frames.len() - 1];
                proof {
                    assert(frame@ == self@.frames.last());
                }
                Ask::Start {
                    kind: frame.kind,
                    name: owned(frame.name.as_str()),
                    seed: frame.seed,
                }
            },
            Waiting::Finished => Ask::Finished,
            Waiting::Failed(error) => Ask::Failed(Error::new(owned(error.message.as_str()))),
        }
    }

    /// Goes on with an answer of the host.
    pub fn answer(self, answer: Answer) -> (launch: Launch)
        ensures
            launch@ == answered(self@, answer@),
    {
        proof {
            use_type_invariant(&self);
            lemma_answer_consistent(self@, answer@);
        }
        let ghost before = self@;
        let ghost expected = answered(self@, answer@);
        let Launch { mut frames, waiting, up } = self;
        match (waiting, answer) {
            (Waiting::Running { kind, name, seed }, Answer::Flag(running)) => {
                if running {
                    return arrive(frames, name, up, Ghost(before));
                }
                if is_frame_open(&frames, name.as_str()) {
                    let reason = owned("cyclic resource dependency involving ").concat(
                        name.as_str(),
                    );
                    return Launch { frames, waiting: Waiting::Failed(Error::new(reason)), up };
                }
                Launch { frames, waiting: Waiting::Dependencies { kind, name, seed }, up }
            },
            (Waiting::Dependencies { kind, name, seed }, Answer::Names(dependencies)) => {
                let some = dependencies.len() > 0;
                let ghost old_frames = frames@;
                frames.push(Frame { kind, name, seed, dependencies, next: 0 });
                proof {
                    assert(frame_views(frames@) =~= before.frames.push(frames@.last()@));
                }
                if some {
                    Launch { frames, waiting: Waiting::Locate, up }
                } else {
                    Launch { frames, waiting: Waiting::Start, up }
                }
            },
            (Waiting::Dependencies { .. }, Answer::Failed(error)) => Launch {
                frames,
                waiting: Waiting::Failed(error),
                up,
            },
            (Waiting::Locate, Answer::Place(place)) => {
                let last: usize = frames.len() - 1;
                proof {
                    assert(frames@[last as int]@ == before.frames.last());
                    assert(text::views(frames@[last as int].dependencies@)[frames@[last as int].next as int]
                        == frames@[last as int].dependencies@[frames@[last as int].next as int]@);
                }
                let name = owned(frames[last].dependencies[frames[last].next].as_str());
                match place {
                    Some(kind) => Launch {
                        frames,
                        waiting: Waiting::Running { kind, name, seed: false },
                        up,
                    },
                    None => {
                        let reason = owned("dependency does not exist: ").concat(name.as_str());
                        Launch { frames, waiting: Waiting::Failed(Error::new(reason)), up }
                    },
                }
            },
            (Waiting::Start, Answer::Done) => {
                let ghost old_frames = frames@;
                proof {
                    assert(old_frames.last()@ == before.frames.last());
                }
                match frames.pop() {
                    Some(frame) => {
                        proof {
                            assert(frame_views(frames@) =~= before.frames.drop_last());
                        }
                        arrive(
                            frames,
                            frame.name,
                            up,
                            Ghost(LaunchModel { frames: before.frames.drop_last(), ..before }),
                        )
                    },
                    None => {
                        assert(false);
                        Launch { frames, waiting: Waiting::Finished, up }
                    },
                }
            },
            (Waiting::Start, Answer::Failed(error)) => Launch {
                frames,
                waiting: Waiting::Failed(error),
                up,
            },
            (waiting, _) => Launch { frames, waiting, up },
        }
    }
}

fn is_frame_open(frames: &Vec<Frame>, name: &str) -> (result: bool)
    ensures
        result == is_open(frame_views(frames@), name@),
{
    let mut index: usize = 0;
    while index < frames.len()
        invariant
            index <= frames@.len(),
            forall|i: int| 0 <= i < index ==> (#[trigger] frame_views(frames@)[i]).name != name@,
        decreases frames@.len() - index,
    {
        proof {
            assert(frame_views(frames@)[index as int].name == frames@[index as int].name@);
        }
        if same(frames[index].name.as_str(), name) {
            return true;
        }
        index += 1;
    }
    false
}

fn arrive(
    frames: Vec<Frame>,
    name: String,
    up: Ghost<Set<Seq<char>>>,
    Ghost(before): Ghost<LaunchModel>,
) -> (launch: Launch)
    requires
        frame_views(frames@) == before.frames,
        up@ == before.up,
        is_consistent(arrived(before, name@)),
        before.frames.len() > 0 ==> waits_at(before.frames.last(), name@),
    ensures
        launch@ == arrived(before, name@),
{
    let mut frames = frames;
    let up: Ghost<Set<Seq<char>>> = Ghost(up@.insert(name@));
    match frames.pop() {
        None => Launch { frames, waiting: Waiting::Finished, up },
        Some(frame) => {
            let ghost shorter = frames@;
            proof {
                assert(frame@ == before.frames.last());
                assert(frame_views(frames@) =~= before.frames.drop_last());
            }
            let Frame { kind, name: own, seed, dependencies, next } = frame;
            let length: usize = dependencies.len();
            assert(next < length);
            let following: usize = next + 1;
            let more = following < length;
            frames.push(Frame { kind, name: own, seed, dependencies, next: following });
            proof {
                assert(frame_views(frames@) =~= before.frames.drop_last().push(
                    FrameModel {
                        next: before.frames.last().next + 1,
                        ..before.frames.last()
                    },
                ));
            }
            if more {
                Launch { frames, waiting: Waiting::Locate, up }
            } else {
                Launch { frames, waiting: Waiting::Start, up }
            }
        },
    }
}

// ---------------------------------------------------------------------------
// Finding a resource
// ---------------------------------------------------------------------------

/// Of which kind the resource with a name is, if there is one. A jail goes before a virtual
/// machine.
pub open spec fn kind_spec(name: Seq<char>, files: Snapshot) -> Option<ResourceKind> {
    if snapshot::is_dir_at(files, jail::jail_path(name)) {
        Some(ResourceKind::Jail)
    } else if bhyve::is_managed(name, files) {
        Some(ResourceKind::Vm)
    } else {
        None
    }
}

/// Of which kind the resource with a name is, if there is one.
pub fn locate(name: &str, files: &Snapshot) -> (kind: Option<ResourceKind>)
    ensures
        kind == kind_spec(name@, *files),
{
    if jail::path_exists(name, files) {
        Some(ResourceKind::Jail)
    } else if bhyve::path_exists(name, files) {
        Some(ResourceKind::Vm)
    } else {
        None
    }
}

/// A name whose directory lies under that of the jails is a jail, also where a virtual
/// machine has the name; a name without either directory is nothing.
pub proof fn law_jail_is_found_first(name: Seq<char>, files: Snapshot)
    ensures
        snapshot::is_dir_at(files, text::join_path_spec(JAIL_BASE@, name)) <==> kind_spec(name, files)
            == Some(ResourceKind::Jail),
        kind_spec(name, files) == Some(ResourceKind::Vm) ==> snapshot::is_dir_at(
            files,
            text::join_path_spec(VM_BASE@, name),
        ),
        !snapshot::is_dir_at(files, text::join_path_spec(JAIL_BASE@, name)) && jail::is_component(
            name,
        ) && snapshot::is_dir_at(files, text::join_path_spec(VM_BASE@, name)) ==> kind_spec(
            name,
            files,
        ) == Some(ResourceKind::Vm),
{
}

} // verus!
