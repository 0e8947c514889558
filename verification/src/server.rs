//! The job queue: submitting jobs, and handing out on each pass the jobs
//! whose templates are ready.
//!
//! The server keeps no handle of the host's asset store. It gives every
//! template an identity of its own, a number, and tells the host with each
//! submission whether the template has to be loaded or added under it.

use crate::assoc::{find_key, key_texts, keys_of, put, value_under};
use crate::file_resolver::StructuredInMemoryTemplate;
use crate::image::PixelBuffer;
use crate::input::{
    dict_entries, dict_from_json, empty_dict, lemma_overlay_of_nothing, serde_entries, unified,
    unify_inputs, InputDict, InputValue,
};
use crate::options::{InputUnifyMode, TypstJobOptions};
use std::collections::VecDeque;
use vstd::multiset::Multiset;
use vstd::prelude::*;

verus! {

/// Settings of the plugin that sets the server up.
#[derive(Debug, Clone, Copy, PartialEq, Eq, Structural)]
pub struct TypstTexturesPlugin {
    /// How many jobs a pass takes at most; no limit where `None`.
    pub jobs_per_frame: Option<u32>,
}

impl Default for TypstTexturesPlugin {
    fn default() -> (plugin: Self)
        ensures
            plugin.jobs_per_frame is None,
    {
        TypstTexturesPlugin { jobs_per_frame: None }
    }
}

/// One request to compile a template and rasterise a page of it.
#[derive(Debug)]
pub struct TypstJob<S> {
    /// The identity of the template.
    pub use_template: u64,
    /// What the document gets as its input.
    pub input: InputDict,
    /// Where the image goes.
    pub send_target: S,
    pub job_options: TypstJobOptions,
}

/// The template of a job: a path that the host loads from, a template made
/// by hand, or the identity of a template that the server knows.
#[derive(Debug)]
pub enum PathBufOrTemplate {
    PathBuf(String),
    /// The template's `path_given` is the key under which it is kept: a
    /// template that was there under the same key is no longer found.
    NewTemplate(StructuredInMemoryTemplate),
    ExistingTemplate(u64),
}

impl From<String> for PathBufOrTemplate {
    fn from(value: String) -> (source: Self) {
        PathBufOrTemplate::PathBuf(value)
    }
}

impl vstd::std_specs::convert::FromSpecImpl<String> for PathBufOrTemplate {
    open spec fn obeys_from_spec() -> bool {
        true
    }

    open spec fn from_spec(value: String) -> Self {
        PathBufOrTemplate::PathBuf(value)
    }
}

impl From<&str> for PathBufOrTemplate {
    fn from(value: &str) -> (source: Self)
        ensures
            source matches PathBufOrTemplate::PathBuf(path) && path@ == value@,
    {
        PathBufOrTemplate::PathBuf(value.to_owned())
    }
}

/// The string that the conversion makes is a new one, of which only the
/// text is known: what `from` returns is stated there.
impl vstd::std_specs::convert::FromSpecImpl<&str> for PathBufOrTemplate {
    open spec fn obeys_from_spec() -> bool {
        false
    }

    open spec fn from_spec(value: &str) -> Self {
        PathBufOrTemplate::PathBuf(choose|path: String| path@ == value@)
    }
}

impl From<StructuredInMemoryTemplate> for PathBufOrTemplate {
    fn from(value: StructuredInMemoryTemplate) -> (source: Self) {
        PathBufOrTemplate::NewTemplate(value)
    }
}

impl vstd::std_specs::convert::FromSpecImpl<StructuredInMemoryTemplate> for PathBufOrTemplate {
    open spec fn obeys_from_spec() -> bool {
        true
    }

    open spec fn from_spec(value: StructuredInMemoryTemplate) -> Self {
        PathBufOrTemplate::NewTemplate(value)
    }
}

impl From<u64> for PathBufOrTemplate {
    fn from(value: u64) -> (source: Self) {
        PathBufOrTemplate::ExistingTemplate(value)
    }
}

impl vstd::std_specs::convert::FromSpecImpl<u64> for PathBufOrTemplate {
    open spec fn obeys_from_spec() -> bool {
        true
    }

    open spec fn from_spec(value: u64) -> Self {
        PathBufOrTemplate::ExistingTemplate(value)
    }
}

/// What the host has to do before a job's template can become ready.
#[derive(Debug)]
pub enum TemplateAction {
    /// Nothing: the template has been asked for before.
    Known,
    /// Load the template from this path.
    Load(String),
    /// Add this template to the asset store.
    Add(StructuredInMemoryTemplate),
}

/// The answer to a submission.
#[derive(Debug)]
pub struct Submission {
    /// The identity of the job's template.
    pub template: u64,
    /// What the host has to do under that identity.
    pub action: TemplateAction,
}

/// The identity kept under each path or key, as plain values.
pub open spec fn registry(templates: Seq<(String, u64)>) -> Seq<(Seq<char>, u64)> {
    templates.map_values(|t: (String, u64)| (t.0@, t.1))
}

/// How a job's template is told apart, and what that does to the server.
pub struct Resolved {
    pub template: u64,
    pub action: TemplateAction,
    pub templates: Seq<(Seq<char>, u64)>,
    pub issued: nat,
}

/// A path that has been asked for before keeps its identity; a new path gets
/// the next identity and is to be loaded. A template made by hand always gets
/// the next identity, which takes the place of what was kept under its key,
/// and is to be added. An identity stands for itself.
pub open spec fn resolve_source(
    templates: Seq<(Seq<char>, u64)>,
    issued: u64,
    source: PathBufOrTemplate,
) -> Resolved {
    match source {
        PathBufOrTemplate::PathBuf(path) => match value_under(templates, path@) {
            Some(id) => Resolved {
                template: id,
                action: TemplateAction::Known,
                templates,
                issued: issued as nat,
            },
            None => Resolved {
                template: issued,
                action: TemplateAction::Load(path),
                templates: put(templates, path@, issued),
                issued: (issued + 1) as nat,
            },
        },
        PathBufOrTemplate::NewTemplate(template) => Resolved {
            template: issued,
            action: TemplateAction::Add(template),
            templates: put(templates, template.path_given@, issued),
            issued: (issued + 1) as nat,
        },
        PathBufOrTemplate::ExistingTemplate(id) => Resolved {
            template: id,
            action: TemplateAction::Known,
            templates,
            issued: issued as nat,
        },
    }
}

/// How many jobs a pass takes at most: the limit, or without one the number
/// of jobs that are queued when the pass begins.
pub open spec fn pass_budget(limit: Option<u32>, queued: nat) -> nat {
    match limit {
        Some(n) => n as nat,
        None => queued,
    }
}

/// One pass over the queue: while the budget lasts and a job is queued, the
/// job at the front is taken. It is handed out where its template is ready
/// and goes to the back of the queue where it is not; either way it uses up
/// one of the budget. Gives the jobs handed out, in order, and the queue that
/// is left.
pub open spec fn drain<S>(queue: Seq<TypstJob<S>>, budget: nat, ready: Set<u64>) -> (
    Seq<TypstJob<S>>,
    Seq<TypstJob<S>>,
)
    decreases budget,
{
    if budget == 0 || queue.len() == 0 {
        (Seq::empty(), queue)
    } else if ready.contains(queue[0].use_template) {
        let rest = drain(queue.drop_first(), (budget - 1) as nat, ready);
        (seq![queue[0]] + rest.0, rest.1)
    } else {
        drain(queue.drop_first().push(queue[0]), (budget - 1) as nat, ready)
    }
}

/// Whether `id` is among `ids`.
pub fn contains_id(ids: &Vec<u64>, id: u64) -> (found: bool)
    ensures
        found == ids@.contains(id),
{
    let mut i: usize = 0;
    while i < ids.len()
        invariant
            i <= ids.len(),
            forall|j: int| 0 <= j < i ==> ids@[j] != id,
        decreases ids.len() - i,
    {
        if ids[i] == id {
            return true;
        }
        i += 1;
    }
    false
}

/// The queue of jobs, with the templates that have been asked for.
#[derive(Debug)]
pub struct TypstTextureServer<S> {
    /// The image that stands in for one that is not there.
    pub fallback: PixelBuffer,
    /// The identity of each template that was asked for by path or key.
    pub templates: Vec<(String, u64)>,
    /// The jobs that wait, the oldest first.
    pub jobs: VecDeque<TypstJob<S>>,
    /// How many jobs a pass takes at most; no limit where `None`.
    pub jobs_per_frame: Option<u32>,
    /// How many identities have been given out.
    pub issued: u64,
}

impl TypstTexturesPlugin {
    /// The server that the plugin sets up: nothing queued, with the plugin's
    /// limit.
    pub fn make_server<S>(&self) -> (server: TypstTextureServer<S>)
        ensures
            server.jobs@.len() == 0,
            server.templates@.len() == 0,
            server.issued == 0,
            server.jobs_per_frame == self.jobs_per_frame,
            server.fallback.well_formed(),
            server.fallback.is_magenta_pixel(),
    {
        let mut server = TypstTextureServer::new();
        server.jobs_per_frame = self.jobs_per_frame;
        server
    }
}

impl<S> TypstTextureServer<S> {
    /// Whether `after` is this server once the template of a job from
    /// `source` has been told apart, with `submission` as the answer: the
    /// templates and the identities given out are as `resolve_source` says,
    /// and the fallback image and the limit are as before.
    pub open spec fn told_apart(
        self,
        after: Self,
        source: PathBufOrTemplate,
        submission: Submission,
    ) -> bool {
        let r = resolve_source(registry(self.templates@), self.issued, source);
        &&& submission.template == r.template
        &&& submission.action == r.action
        &&& registry(after.templates@) == r.templates
        &&& after.issued == r.issued
        &&& after.fallback == self.fallback
        &&& after.jobs_per_frame == self.jobs_per_frame
    }

    /// A server with nothing queued, no limit, and a single magenta pixel as
    /// its fallback image.
    pub fn new() -> (server: Self)
        ensures
            server.jobs@.len() == 0,
            server.templates@.len() == 0,
            server.issued == 0,
            server.jobs_per_frame is None,
            server.fallback.well_formed(),
            server.fallback.is_magenta_pixel(),
    {
        Self::new_with_fallback(PixelBuffer::fallback())
    }

    /// A server with nothing queued, no limit, and the given fallback image.
    pub fn new_with_fallback(fallback: PixelBuffer) -> (server: Self)
        ensures
            server.jobs@.len() == 0,
            server.templates@.len() == 0,
            server.issued == 0,
            server.jobs_per_frame is None,
            server.fallback == fallback,
    {
        TypstTextureServer {
            fallback,
            templates: Vec::new(),
            jobs: VecDeque::new(),
            jobs_per_frame: None,
            issued: 0,
        }
    }

    /// The same server with a limit on the jobs of a pass.
    pub fn limit_jobs(self, limit: u32) -> (server: Self)
        ensures
            server.jobs_per_frame == Some(limit),
            server.fallback == self.fallback,
            server.templates == self.templates,
            server.jobs == self.jobs,
            server.issued == self.issued,
    {
        let mut server = self;
        server.jobs_per_frame = Some(limit);
        server
    }

    /// The same server without a limit on the jobs of a pass.
    pub fn unlimited_jobs(self) -> (server: Self)
        ensures
            server.jobs_per_frame is None,
            server.fallback == self.fallback,
            server.templates == self.templates,
            server.jobs == self.jobs,
            server.issued == self.issued,
    {
        let mut server = self;
        server.jobs_per_frame = None;
        server
    }

    /// Gives the next identity to a template that the host holds already and
    /// that the server has not seen. The identity is kept under no path: jobs
    /// name it as an existing template.
    pub fn adopt_template(&mut self) -> (id: u64)
        requires
            old(self).issued < u64::MAX,
        ensures
            id == old(self).issued,
            final(self).issued == old(self).issued + 1,
            final(self).templates == old(self).templates,
            final(self).jobs == old(self).jobs,
            final(self).fallback == old(self).fallback,
            final(self).jobs_per_frame == old(self).jobs_per_frame,
    {
        let id = self.issued;
        self.issued = id + 1;
        id
    }

    /// Tells a job's template apart and notes it among the templates.
    fn resolve(&mut self, source: PathBufOrTemplate) -> (submission: Submission)
        requires
            old(self).issued < u64::MAX,
        ensures
            old(self).told_apart(*final(self), source, submission),
            final(self).jobs == old(self).jobs,
    {
        assert(key_texts(self.templates@) == keys_of(registry(self.templates@)));
        match source {
            PathBufOrTemplate::PathBuf(path) => {
                let place = find_key(&self.templates, &path);
                if place < self.templates.len() {
                    Submission { template: self.templates[place].1, action: TemplateAction::Known }
                } else {
                    let id = self.issued;
                    self.templates.push((path.clone(), id));
                    self.issued = id + 1;
                    assert(registry(self.templates@) == registry(old(self).templates@).push(
                        (path@, id),
                    ));
                    Submission { template: id, action: TemplateAction::Load(path) }
                }
            },
            PathBufOrTemplate::NewTemplate(template) => {
                let id = self.issued;
                let key = template.path_given.clone();
                let place = find_key(&self.templates, &key);
                if place < self.templates.len() {
                    self.templates.set(place, (key, id));
                    assert(registry(self.templates@) == registry(old(self).templates@).update(
                        place as int,
                        (key@, id),
                    ));
                } else {
                    self.templates.push((key, id));
                    assert(registry(self.templates@) == registry(old(self).templates@).push(
                        (key@, id),
                    ));
                }
                self.issued = id + 1;
                Submission { template: id, action: TemplateAction::Add(template) }
            },
            PathBufOrTemplate::ExistingTemplate(id) => Submission {
                template: id,
                action: TemplateAction::Known,
            },
        }
    }

    /// Queues a job without input. The answer says which identity the job's
    /// template has and what the host has to do for it.
    pub fn add_job(
        &mut self,
        path: PathBufOrTemplate,
        options: TypstJobOptions,
        send_target: S,
    ) -> (submission: Submission)
        requires
            old(self).issued < u64::MAX,
        ensures
            old(self).told_apart(*final(self), path, submission),
            final(self).jobs@.len() == old(self).jobs@.len() + 1,
            final(self).jobs@.drop_last() == old(self).jobs@,
            final(self).jobs@.last().use_template == submission.template,
            dict_entries(final(self).jobs@.last().input) == Seq::<(Seq<char>, InputValue)>::empty(),
            final(self).jobs@.last().send_target == send_target,
            final(self).jobs@.last().job_options == options,
    {
        let submission = self.add_job_with_dict_input(path, empty_dict(), options, send_target);
        assert(final(self).jobs@.drop_last() == old(self).jobs@);
        submission
    }

    /// Queues a job at the back, with a dictionary as its input.
    pub fn add_job_with_dict_input(
        &mut self,
        path: PathBufOrTemplate,
        input: InputDict,
        options: TypstJobOptions,
        send_target: S,
    ) -> (submission: Submission)
        requires
            old(self).issued < u64::MAX,
        ensures
            old(self).told_apart(*final(self), path, submission),
            final(self).jobs@ == old(self).jobs@.push(
                TypstJob {
                    use_template: submission.template,
                    input,
                    send_target,
                    job_options: options,
                },
            ),
    {
        let submission = self.resolve(path);
        let use_template = submission.template;
        self.jobs.push_back(TypstJob { use_template, input, send_target, job_options: options });
        submission
    }

    /// Queues a job whose input is made of two dictionaries, by the mode that
    /// the options name. Without the first one, the second is the input.
    pub fn add_job_with_two_dict_inputs(
        &mut self,
        path: PathBufOrTemplate,
        input_serde: Option<InputDict>,
        input_dict: InputDict,
        options: TypstJobOptions,
        send_target: S,
    ) -> (submission: Submission)
        requires
            old(self).issued < u64::MAX,
        ensures
            old(self).told_apart(*final(self), path, submission),
            final(self).jobs@.len() == old(self).jobs@.len() + 1,
            final(self).jobs@.drop_last() == old(self).jobs@,
            final(self).jobs@.last().use_template == submission.template,
            match input_serde {
                Some(serde) => unified(
                    options.input_unify_mode,
                    dict_entries(serde),
                    dict_entries(input_dict),
                    dict_entries(final(self).jobs@.last().input),
                ),
                None => final(self).jobs@.last().input == input_dict,
            },
            final(self).jobs@.last().send_target == send_target,
            final(self).jobs@.last().job_options == options,
    {
        let input = match input_serde {
            Some(serde) => unify_inputs(&options.input_unify_mode, serde, input_dict),
            None => input_dict,
        };
        let submission = self.add_job_with_dict_input(path, input, options, send_target);
        assert(final(self).jobs@.drop_last() == old(self).jobs@);
        submission
    }

    /// Queues a job whose input is made of a serialised value and a
    /// dictionary. Where the value is missing or is no dictionary, the
    /// dictionary alone is the input.
    pub fn add_job_with_dict_and_serde_input(
        &mut self,
        path: PathBufOrTemplate,
        input_serde: Option<serde_json::Value>,
        input_dict: InputDict,
        options: TypstJobOptions,
        send_target: S,
    ) -> (submission: Submission)
        requires
            old(self).issued < u64::MAX,
        ensures
            old(self).told_apart(*final(self), path, submission),
            final(self).jobs@.len() == old(self).jobs@.len() + 1,
            final(self).jobs@.drop_last() == old(self).jobs@,
            final(self).jobs@.last().use_template == submission.template,
            match serde_entries(input_serde) {
                Some(serde) => unified(
                    options.input_unify_mode,
                    serde,
                    dict_entries(input_dict),
                    dict_entries(final(self).jobs@.last().input),
                ),
                None => final(self).jobs@.last().input == input_dict,
            },
            final(self).jobs@.last().send_target == send_target,
            final(self).jobs@.last().job_options == options,
    {
        let serde = match input_serde {
            Some(value) => dict_from_json(value),
            None => None,
        };
        self.add_job_with_two_dict_inputs(path, serde, input_dict, options, send_target)
    }

    /// Queues a job whose input is a serialised value alone: the dictionary
    /// that the value is read as, or an empty one where it is missing or is
    /// no dictionary. The options' mode is set to the one in which the
    /// serialised value overrides.
    pub fn add_job_with_serde_input(
        &mut self,
        path: PathBufOrTemplate,
        input: Option<serde_json::Value>,
        options: TypstJobOptions,
        send_target: S,
    ) -> (submission: Submission)
        requires
            old(self).issued < u64::MAX,
        ensures
            old(self).told_apart(*final(self), path, submission),
            final(self).jobs@.len() == old(self).jobs@.len() + 1,
            final(self).jobs@.drop_last() == old(self).jobs@,
            final(self).jobs@.last().use_template == submission.template,
            dict_entries(final(self).jobs@.last().input) == match serde_entries(input) {
                Some(serde) => serde,
                None => Seq::empty(),
            },
            final(self).jobs@.last().send_target == send_target,
            final(self).jobs@.last().job_options == (TypstJobOptions {
                input_unify_mode: InputUnifyMode::SerdeOverridesDict,
                ..options
            }),
    {
        let options = TypstJobOptions {
            pixels_per_pt: options.pixels_per_pt,
            specific_page: options.specific_page,
            asset_usage: options.asset_usage,
            input_unify_mode: InputUnifyMode::SerdeOverridesDict,
        };
        let serde = match input {
            Some(value) => dict_from_json(value),
            None => None,
        };
        proof {
            if serde is Some {
                lemma_overlay_of_nothing(dict_entries(serde->Some_0));
            }
        }
        self.add_job_with_two_dict_inputs(path, serde, empty_dict(), options, send_target)
    }

    /// Runs one pass over the queue. `ready` names the templates that the
    /// host has loaded. The jobs that come back are to be compiled and
    /// rasterised, in their order; the others wait at the back of the queue.
    pub fn system_do_jobs(&mut self, ready: &Vec<u64>) -> (run: Vec<TypstJob<S>>)
        ensures
            (run@, final(self).jobs@) == drain(
                old(self).jobs@,
                pass_budget(old(self).jobs_per_frame, old(self).jobs@.len()),
                ready@.to_set(),
            ),
            final(self).templates == old(self).templates,
            final(self).issued == old(self).issued,
            final(self).fallback == old(self).fallback,
            final(self).jobs_per_frame == old(self).jobs_per_frame,
    {
        let budget: usize = match self.jobs_per_frame {
            Some(limit) => limit as usize,
            None => self.jobs.len(),
        };
        let ghost ready_set = ready@.to_set();
        let ghost whole = drain(old(self).jobs@, budget as nat, ready_set);
        let mut run: Vec<TypstJob<S>> = Vec::new();
        let mut done: usize = 0;
        while done < budget && self.jobs.len() > 0
            invariant
                done <= budget,
                ready_set == ready@.to_set(),
                whole.0 == run@ + drain(self.jobs@, (budget - done) as nat, ready_set).0,
                whole.1 == drain(self.jobs@, (budget - done) as nat, ready_set).1,
                self.templates == old(self).templates,
                self.issued == old(self).issued,
                self.fallback == old(self).fallback,
                self.jobs_per_frame == old(self).jobs_per_frame,
            decreases budget - done,
        {
            let ghost queue = self.jobs@;
            let job = self.jobs.pop_front().unwrap();
            assert(self.jobs@ == queue.drop_first());
            if contains_id(ready, job.use_template) {
                proof {
                    let rest = drain(queue.drop_first(), (budget - done - 1) as nat, ready_set);
                    assert(run@.push(job) + rest.0 == run@ + (seq![job] + rest.0));
                }
                run.push(job);
            } else {
                self.jobs.push_back(job);
            }
            done += 1;
        }
        proof {
            let left = drain(self.jobs@, (budget - done) as nat, ready_set);
            assert(left == (Seq::<TypstJob<S>>::empty(), self.jobs@));
            assert(run@ + left.0 == run@);
        }
        run
    }
}

/// The jobs whose template is ready.
pub open spec fn ready_jobs<S>(ready: Set<u64>) -> spec_fn(TypstJob<S>) -> bool {
    |job: TypstJob<S>| ready.contains(job.use_template)
}

/// The jobs whose template is not ready.
pub open spec fn waiting_jobs<S>(ready: Set<u64>) -> spec_fn(TypstJob<S>) -> bool {
    |job: TypstJob<S>| !ready.contains(job.use_template)
}

/// A pass whose budget does not exceed the queue takes exactly the first
/// `budget` jobs. Those that are ready are handed out in their order; those
/// that are not go behind the jobs that were not taken, in their order.
pub proof fn lemma_drain_within_queue<S>(queue: Seq<TypstJob<S>>, budget: nat, ready: Set<u64>)
    requires
        budget <= queue.len(),
    ensures
        drain(queue, budget, ready) == (
            queue.take(budget as int).filter(ready_jobs(ready)),
            queue.skip(budget as int) + queue.take(budget as int).filter(waiting_jobs(ready)),
        ),
    decreases budget,
{
    let run = ready_jobs::<S>(ready);
    let wait = waiting_jobs::<S>(ready);
    if budget == 0 {
        reveal(Seq::filter);
        assert(queue.take(0).len() == 0);
        assert(queue.skip(0) + queue.take(0).filter(wait) == queue);
    } else {
        let first = queue[0];
        let rest = queue.drop_first();
        let taken = queue.take(budget as int);
        let tail = rest.take(budget - 1);
        assert(taken == seq![first] + tail);
        tail.lemma_filter_prepend(first, run);
        tail.lemma_filter_prepend(first, wait);
        assert(queue.skip(budget as int) == rest.skip(budget - 1));
        if ready.contains(first.use_template) {
            lemma_drain_within_queue(rest, (budget - 1) as nat, ready);
            assert(Seq::<TypstJob<S>>::empty() + tail.filter(wait) == tail.filter(wait));
        } else {
            let moved = rest.push(first);
            lemma_drain_within_queue(moved, (budget - 1) as nat, ready);
            assert(moved.take(budget - 1) == tail);
            assert(moved.skip(budget - 1) == rest.skip(budget - 1).push(first));
            assert(Seq::<TypstJob<S>>::empty() + tail.filter(run) == tail.filter(run));
            assert(rest.skip(budget - 1).push(first) + tail.filter(wait) == rest.skip(budget - 1)
                + (seq![first] + tail.filter(wait)));
        }
    }
}

/// A pass without a limit takes every job that is queued when it begins, once:
/// the ready ones are handed out in their order, and the others are left
/// queued in their order.
pub proof fn lemma_pass_without_limit<S>(queue: Seq<TypstJob<S>>, ready: Set<u64>)
    ensures
        drain(queue, pass_budget(None, queue.len()), ready) == (
            queue.filter(ready_jobs(ready)),
            queue.filter(waiting_jobs(ready)),
        ),
{
    lemma_drain_within_queue(queue, queue.len(), ready);
    assert(queue.take(queue.len() as int) == queue);
    assert(queue.skip(queue.len() as int) + queue.filter(waiting_jobs(ready)) == queue.filter(
        waiting_jobs(ready),
    ));
}

/// With every template ready and at least as many jobs queued as the budget
/// allows, a pass hands out exactly the first `budget` jobs and leaves the
/// others queued in their order.
pub proof fn lemma_all_ready<S>(queue: Seq<TypstJob<S>>, budget: nat, ready: Set<u64>)
    requires
        budget <= queue.len(),
        forall|i: int| 0 <= i < queue.len() ==> ready.contains(#[trigger] queue[i].use_template),
    ensures
        drain(queue, budget, ready) == (queue.take(budget as int), queue.skip(budget as int)),
    decreases budget,
{
    if budget == 0 {
        assert(queue.take(0) == Seq::<TypstJob<S>>::empty());
        assert(queue.skip(0) == queue);
    } else {
        let rest = queue.drop_first();
        assert(ready.contains(queue[0].use_template));
        assert forall|i: int| 0 <= i < rest.len() implies ready.contains(
            #[trigger] rest[i].use_template,
        ) by {
            assert(rest[i] == queue[i + 1]);
        }
        lemma_all_ready(rest, (budget - 1) as nat, ready);
        assert(queue.take(budget as int) == seq![queue[0]] + rest.take(budget - 1));
        assert(queue.skip(budget as int) == rest.skip(budget - 1));
    }
}

/// With every template ready, a pass hands out the jobs at the front, as many
/// as the budget allows and the queue holds, and leaves the others queued in
/// their order.
pub proof fn lemma_all_ready_any_budget<S>(queue: Seq<TypstJob<S>>, budget: nat, ready: Set<u64>)
    requires
        forall|i: int| 0 <= i < queue.len() ==> ready.contains(#[trigger] queue[i].use_template),
    ensures
        drain(queue, budget, ready) == if budget <= queue.len() {
            (queue.take(budget as int), queue.skip(budget as int))
        } else {
            (queue, Seq::empty())
        },
{
    if budget <= queue.len() {
        lemma_all_ready(queue, budget, ready);
    } else {
        lemma_all_ready(queue, queue.len(), ready);
        lemma_drain_in_two_steps(queue, queue.len(), (budget - queue.len()) as nat, ready);
        assert(queue.take(queue.len() as int) == queue);
        assert(queue.skip(queue.len() as int) == Seq::<TypstJob<S>>::empty());
        assert(queue + Seq::<TypstJob<S>>::empty() == queue);
    }
}

/// `count` passes in a row, each with the budget that the limit gives it: the
/// jobs handed out, in order, and the queue that is left.
pub open spec fn passes<S>(
    queue: Seq<TypstJob<S>>,
    limit: Option<u32>,
    ready: Set<u64>,
    count: nat,
) -> (Seq<TypstJob<S>>, Seq<TypstJob<S>>)
    decreases count,
{
    if count == 0 {
        (Seq::empty(), queue)
    } else {
        let first = drain(queue, pass_budget(limit, queue.len()), ready);
        let rest = passes(first.1, limit, ready, (count - 1) as nat);
        (first.0 + rest.0, rest.1)
    }
}

/// Once every template of the queue is ready, finitely many passes hand out
/// every queued job, each once and in the queue's order, and leave nothing
/// queued: one pass without a limit, and with a limit as many passes as it
/// takes for the limits to add up to the length of the queue.
pub proof fn lemma_ready_queue_runs_out<S>(
    queue: Seq<TypstJob<S>>,
    limit: Option<u32>,
    ready: Set<u64>,
    count: nat,
)
    requires
        forall|i: int| 0 <= i < queue.len() ==> ready.contains(#[trigger] queue[i].use_template),
        count >= 1,
        limit matches Some(n) ==> count * n >= queue.len(),
    ensures
        passes(queue, limit, ready, count) == (queue, Seq::<TypstJob<S>>::empty()),
    decreases count,
{
    let budget = pass_budget(limit, queue.len());
    lemma_all_ready_any_budget(queue, budget, ready);
    let first = drain(queue, budget, ready);
    assert(first.0 + first.1 == queue);
    if count == 1 {
        assert(budget >= queue.len()) by {
            if let Some(n) = limit {
                assert(1 * n == n) by (nonlinear_arith);
            }
        }
        assert(passes(first.1, limit, ready, 0) == (Seq::<TypstJob<S>>::empty(), first.1));
        assert(first.0 + Seq::<TypstJob<S>>::empty() == first.0);
    } else {
        let left = first.1;
        assert forall|i: int| 0 <= i < left.len() implies ready.contains(
            #[trigger] left[i].use_template,
        ) by {
            if budget <= queue.len() {
                assert(left[i] == queue[i + budget]);
            }
        }
        if let Some(n) = limit {
            assert((count - 1) * n == count * n - n) by (nonlinear_arith);
        }
        lemma_ready_queue_runs_out(left, limit, ready, (count - 1) as nat);
    }
}

/// A pass drops no job and makes none up: the jobs handed out and the jobs
/// left in the queue are together the jobs that were queued.
pub proof fn lemma_drain_keeps_every_job<S>(queue: Seq<TypstJob<S>>, budget: nat, ready: Set<u64>)
    ensures
        drain(queue, budget, ready).0.to_multiset().add(drain(queue, budget, ready).1.to_multiset())
            == queue.to_multiset(),
    decreases budget,
{
    broadcast use vstd::multiset::group_multiset_axioms;

    if budget == 0 || queue.len() == 0 {
        assert(Seq::<TypstJob<S>>::empty().to_multiset() =~= Multiset::empty()) by {
            Seq::<TypstJob<S>>::empty().to_multiset_ensures();
        }
        assert(Multiset::<TypstJob<S>>::empty().add(queue.to_multiset()) =~= queue.to_multiset());
    } else {
        let first = queue[0];
        let rest = queue.drop_first();
        assert(queue == seq![first] + rest);
        vstd::seq_lib::lemma_multiset_commutative(seq![first], rest);
        if ready.contains(first.use_template) {
            let after = drain(rest, (budget - 1) as nat, ready);
            lemma_drain_keeps_every_job(rest, (budget - 1) as nat, ready);
            vstd::seq_lib::lemma_multiset_commutative(seq![first], after.0);
            assert(seq![first].to_multiset().add(after.0.to_multiset()).add(after.1.to_multiset())
                =~= seq![first].to_multiset().add(
                after.0.to_multiset().add(after.1.to_multiset()),
            ));
        } else {
            let moved = rest.push(first);
            lemma_drain_keeps_every_job(moved, (budget - 1) as nat, ready);
            assert(moved == rest + seq![first]);
            vstd::seq_lib::lemma_multiset_commutative(rest, seq![first]);
            assert(rest.to_multiset().add(seq![first].to_multiset()) =~= seq![
                first,
            ].to_multiset().add(rest.to_multiset()));
        }
    }
}

/// Two passes in a row do what one pass with both budgets does.
pub proof fn lemma_drain_in_two_steps<S>(
    queue: Seq<TypstJob<S>>,
    first: nat,
    second: nat,
    ready: Set<u64>,
)
    ensures
        drain(queue, first + second, ready) == ({
            let begun = drain(queue, first, ready);
            let ended = drain(begun.1, second, ready);
            (begun.0 + ended.0, ended.1)
        }),
    decreases first,
{
    let begun = drain(queue, first, ready);
    let ended = drain(begun.1, second, ready);
    if first == 0 {
        assert(Seq::<TypstJob<S>>::empty() + ended.0 == ended.0);
    } else if queue.len() == 0 {
        assert(Seq::<TypstJob<S>>::empty() + ended.0 == ended.0);
    } else if ready.contains(queue[0].use_template) {
        let rest = queue.drop_first();
        lemma_drain_in_two_steps(rest, (first - 1) as nat, second, ready);
        let inner = drain(rest, (first - 1) as nat, ready);
        assert((seq![queue[0]] + inner.0) + ended.0 == seq![queue[0]] + (inner.0 + ended.0));
    } else {
        lemma_drain_in_two_steps(
            queue.drop_first().push(queue[0]),
            (first - 1) as nat,
            second,
            ready,
        );
    }
}

/// A job whose template is ready is handed out in this pass if fewer jobs
/// stand before it than the budget allows.
pub proof fn lemma_ready_job_is_run<S>(
    queue: Seq<TypstJob<S>>,
    budget: nat,
    ready: Set<u64>,
    k: int,
)
    requires
        0 <= k < queue.len(),
        k < budget,
        ready.contains(queue[k].use_template),
    ensures
        drain(queue, budget, ready).0.contains(queue[k]),
{
    let within: nat = if budget <= queue.len() {
        budget
    } else {
        queue.len()
    };
    lemma_drain_within_queue(queue, within, ready);
    let taken = queue.take(within as int);
    assert(taken[k] == queue[k]);
    taken.lemma_filter_contains(ready_jobs(ready), k);
    lemma_drain_in_two_steps(queue, within, (budget - within) as nat, ready);
    let begun = drain(queue, within, ready);
    let ended = drain(begun.1, (budget - within) as nat, ready);
    let i = choose|i: int| 0 <= i < begun.0.len() && begun.0[i] == queue[k];
    assert((begun.0 + ended.0)[i] == queue[k]);
}

/// A job behind the first `budget` of the queue is not taken in this pass and
/// stands `budget` places further to the front after it, whatever the pass
/// puts behind it.
pub proof fn lemma_waiting_job_advances<S>(
    queue: Seq<TypstJob<S>>,
    budget: nat,
    ready: Set<u64>,
    k: int,
)
    requires
        budget <= k < queue.len(),
    ensures
        k - budget < drain(queue, budget, ready).1.len(),
        drain(queue, budget, ready).1[k - budget] == queue[k],
{
    lemma_drain_within_queue(queue, budget, ready);
}

} // verus!
