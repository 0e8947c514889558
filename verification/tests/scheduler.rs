use bevy_typst_textures::cache::TemplateCache;
use bevy_typst_textures::file_resolver::StructuredInMemoryTemplate;
use bevy_typst_textures::options::{InputUnifyMode, TypstJobOptions};
use bevy_typst_textures::server::{
    contains_id, PathBufOrTemplate, TemplateAction, TypstTextureServer, TypstTexturesPlugin,
};

fn path(text: &str) -> PathBufOrTemplate {
    PathBufOrTemplate::PathBuf(text.to_string())
}

fn queue(server: &mut TypstTextureServer<u32>, template: &str, ticket: u32) -> u64 {
    server
        .add_job(path(template), TypstJobOptions::default(), ticket)
        .template
}

fn tickets(server: &TypstTextureServer<u32>) -> Vec<u32> {
    server.jobs.iter().map(|job| job.send_target).collect()
}

fn run(server: &mut TypstTextureServer<u32>, ready: &[u64]) -> Vec<u32> {
    server
        .system_do_jobs(&ready.to_vec())
        .into_iter()
        .map(|job| job.send_target)
        .collect()
}

#[test]
fn new_server_is_empty_and_unlimited() {
    let server: TypstTextureServer<u32> = TypstTextureServer::new();
    assert!(server.jobs.is_empty());
    assert!(server.templates.is_empty());
    assert_eq!(server.jobs_per_frame, None);
    assert_eq!(server.issued, 0);
    assert_eq!(server.fallback.data, [255, 0, 255, 255]);
    assert_eq!((server.fallback.width, server.fallback.height), (1, 1));
}

#[test]
fn limit_can_be_set_and_cleared() {
    let server: TypstTextureServer<u32> = TypstTextureServer::new().limit_jobs(3);
    assert_eq!(server.jobs_per_frame, Some(3));
    let server = server.unlimited_jobs();
    assert_eq!(server.jobs_per_frame, None);
    let plugin = TypstTexturesPlugin { jobs_per_frame: Some(7) };
    let server: TypstTextureServer<u32> = plugin.make_server();
    assert_eq!(server.jobs_per_frame, Some(7));
    assert!(server.jobs.is_empty());
    assert_eq!(TypstTexturesPlugin::default().jobs_per_frame, None);
}

#[test]
fn path_is_loaded_once_and_keeps_its_identity() {
    let mut server: TypstTextureServer<u32> = TypstTextureServer::new();
    let first = server.add_job(path("a.zip"), TypstJobOptions::default(), 1);
    assert_eq!(first.template, 0);
    assert!(matches!(first.action, TemplateAction::Load(ref p) if p == "a.zip"));
    let second = server.add_job(path("b.typ"), TypstJobOptions::default(), 2);
    assert_eq!(second.template, 1);
    assert!(matches!(second.action, TemplateAction::Load(ref p) if p == "b.typ"));
    let again = server.add_job(path("a.zip"), TypstJobOptions::default(), 3);
    assert_eq!(again.template, 0);
    assert!(matches!(again.action, TemplateAction::Known));
    assert_eq!(
        server.templates,
        vec![("a.zip".to_string(), 0), ("b.typ".to_string(), 1)]
    );
    assert_eq!(server.issued, 2);
    assert_eq!(tickets(&server), [1, 2, 3]);
    let templates: Vec<u64> = server.jobs.iter().map(|job| job.use_template).collect();
    assert_eq!(templates, [0, 1, 0]);
}

#[test]
fn template_made_by_hand_takes_the_place_of_its_key() {
    let mut server: TypstTextureServer<u32> = TypstTextureServer::new();
    queue(&mut server, "inline", 1);
    let mut template = StructuredInMemoryTemplate::standalone("= A".to_string());
    template.path_given = "inline".to_string();
    let added = server.add_job(
        PathBufOrTemplate::NewTemplate(template),
        TypstJobOptions::default(),
        2,
    );
    assert_eq!(added.template, 1);
    assert!(matches!(added.action, TemplateAction::Add(ref t) if t.loaded_main == "= A"));
    assert_eq!(server.templates, vec![("inline".to_string(), 1)]);
    let by_path = server.add_job(path("inline"), TypstJobOptions::default(), 3);
    assert_eq!(by_path.template, 1);
    assert!(matches!(by_path.action, TemplateAction::Known));
    let mut other = StructuredInMemoryTemplate::standalone("= B".to_string());
    other.path_given = "second".to_string();
    let added = server.add_job(other.into(), TypstJobOptions::default(), 4);
    assert_eq!(added.template, 2);
    assert_eq!(
        server.templates,
        vec![("inline".to_string(), 1), ("second".to_string(), 2)]
    );
}

#[test]
fn identity_stands_for_itself() {
    let mut server: TypstTextureServer<u32> = TypstTextureServer::new();
    let submission = server.add_job(PathBufOrTemplate::from(41), TypstJobOptions::default(), 1);
    assert_eq!(submission.template, 41);
    assert!(matches!(submission.action, TemplateAction::Known));
    assert!(server.templates.is_empty());
    assert_eq!(server.issued, 0);
    assert_eq!(server.jobs[0].use_template, 41);
    assert!(matches!(
        PathBufOrTemplate::from("x".to_string()),
        PathBufOrTemplate::PathBuf(ref p) if p == "x"
    ));
}

#[test]
fn text_stands_for_a_path() {
    assert!(matches!(
        PathBufOrTemplate::from("card.zip"),
        PathBufOrTemplate::PathBuf(ref p) if p == "card.zip"
    ));
    let mut server: TypstTextureServer<u32> = TypstTextureServer::new();
    let first = server.add_job("card.zip".into(), TypstJobOptions::default(), 1);
    let again = server.add_job("card.zip".to_string().into(), TypstJobOptions::default(), 2);
    assert_eq!(first.template, again.template);
    assert!(matches!(again.action, TemplateAction::Known));
}

#[test]
fn template_that_the_host_holds_gets_the_next_identity() {
    let mut server: TypstTextureServer<u32> = TypstTextureServer::new();
    queue(&mut server, "a", 1);
    let adopted = server.adopt_template();
    assert_eq!(adopted, 1);
    assert_eq!(server.issued, 2);
    assert_eq!(server.templates, vec![("a".to_string(), 0)]);
    assert_eq!(queue(&mut server, "b", 2), 2);
    let source = PathBufOrTemplate::ExistingTemplate(adopted);
    let job = server.add_job(source, TypstJobOptions::default(), 3);
    assert_eq!(job.template, adopted);
    assert_eq!(run(&mut server, &[adopted]), [3]);
}

#[test]
fn ready_queue_runs_out_in_as_many_passes_as_the_limit_needs() {
    let mut server = TypstTextureServer::new().limit_jobs(3);
    let id = queue(&mut server, "t", 0);
    for ticket in 1..8 {
        queue(&mut server, "t", ticket);
    }
    let mut delivered = Vec::new();
    for _ in 0..3 {
        delivered.extend(run(&mut server, &[id]));
    }
    assert_eq!(delivered, (0..8).collect::<Vec<u32>>());
    assert!(server.jobs.is_empty());
}

#[test]
fn options_travel_with_the_job() {
    let mut server: TypstTextureServer<u32> = TypstTextureServer::new();
    let mut options = TypstJobOptions::default();
    options.specific_page = Some(4);
    options.input_unify_mode = InputUnifyMode::DictOverridesSerde;
    server.add_job(path("a"), options, 9);
    assert_eq!(server.jobs[0].job_options.specific_page, Some(4));
    assert!(matches!(
        server.jobs[0].job_options.input_unify_mode,
        InputUnifyMode::DictOverridesSerde
    ));
    assert!(server.jobs[0].input.is_empty());
}

#[test]
fn pass_with_a_limit_takes_that_many_ready_jobs_in_order() {
    let mut server = TypstTextureServer::new().limit_jobs(2);
    let id = queue(&mut server, "t", 10);
    for ticket in 11..15 {
        queue(&mut server, "t", ticket);
    }
    assert_eq!(run(&mut server, &[id]), [10, 11]);
    assert_eq!(tickets(&server), [12, 13, 14]);
    assert_eq!(run(&mut server, &[id]), [12, 13]);
    assert_eq!(run(&mut server, &[id]), [14]);
    assert!(run(&mut server, &[id]).is_empty());
    assert!(server.jobs.is_empty());
}

#[test]
fn pass_with_limit_zero_takes_nothing() {
    let mut server = TypstTextureServer::new().limit_jobs(0);
    let id = queue(&mut server, "t", 1);
    assert!(run(&mut server, &[id]).is_empty());
    assert_eq!(tickets(&server), [1]);
}

#[test]
fn job_that_is_not_ready_goes_to_the_back_and_uses_up_the_limit() {
    let mut server = TypstTextureServer::new().limit_jobs(2);
    let slow = queue(&mut server, "slow", 1);
    let fast = queue(&mut server, "fast", 2);
    queue(&mut server, "slow", 3);
    queue(&mut server, "fast", 4);
    assert_eq!(run(&mut server, &[fast]), [2]);
    assert_eq!(tickets(&server), [3, 4, 1]);
    assert_eq!(run(&mut server, &[fast]), [4]);
    assert_eq!(tickets(&server), [1, 3]);
    assert!(run(&mut server, &[fast]).is_empty());
    assert_eq!(tickets(&server), [1, 3]);
    assert_eq!(run(&mut server, &[fast, slow]), [1, 3]);
    assert!(server.jobs.is_empty());
}

#[test]
fn pass_without_a_limit_takes_every_job_once() {
    let mut server = TypstTextureServer::new();
    let a = queue(&mut server, "a", 1);
    queue(&mut server, "b", 2);
    queue(&mut server, "a", 3);
    queue(&mut server, "b", 4);
    assert_eq!(run(&mut server, &[a]), [1, 3]);
    assert_eq!(tickets(&server), [2, 4]);
    assert!(run(&mut server, &[]).is_empty());
    assert_eq!(tickets(&server), [2, 4]);
}

#[test]
fn limit_above_the_queue_turns_waiting_jobs_round() {
    let mut server = TypstTextureServer::new().limit_jobs(3);
    queue(&mut server, "a", 1);
    queue(&mut server, "b", 2);
    assert!(run(&mut server, &[]).is_empty());
    assert_eq!(tickets(&server), [2, 1]);
}

#[test]
fn hundred_jobs_for_one_template_build_one_engine() {
    let mut server = TypstTextureServer::new().limit_jobs(30);
    let id = queue(&mut server, "card.zip", 0);
    for ticket in 1..100 {
        assert_eq!(queue(&mut server, "card.zip", ticket), id);
    }
    let mut cache: TemplateCache<String> = TemplateCache::new();
    let mut builds = 0;
    let mut delivered = Vec::new();
    assert!(run(&mut server, &[]).is_empty());
    assert_eq!(server.jobs.len(), 100);
    while !server.jobs.is_empty() {
        for job in server.system_do_jobs(&vec![id]) {
            if cache.resolve(job.use_template, || "engine".to_string()) {
                builds += 1;
            }
            assert_eq!(cache.get(job.use_template).map(String::as_str), Some("engine"));
            delivered.push(job.send_target);
        }
    }
    assert_eq!(builds, 1);
    assert_eq!(cache.len(), 1);
    let expected: Vec<u32> = (30..100).chain(0..30).collect();
    assert_eq!(delivered, expected);
}

#[test]
fn cache_keeps_the_first_engine() {
    let mut cache: TemplateCache<u8> = TemplateCache::new();
    assert!(!cache.contains(3));
    assert_eq!(cache.get(3), None);
    assert!(cache.insert(3, 10));
    assert!(!cache.insert(3, 20));
    assert_eq!(cache.get(3), Some(&10));
    assert!(cache.contains(3));
    assert!(!cache.resolve(3, || 30));
    assert!(cache.resolve(4, || 40));
    assert_eq!(cache.get(3), Some(&10));
    assert_eq!(cache.get(4), Some(&40));
    assert_eq!(cache.len(), 2);
}

#[test]
fn identities_are_looked_up_in_a_list() {
    assert!(contains_id(&vec![4, 8, 15], 15));
    assert!(!contains_id(&vec![4, 8, 15], 16));
    assert!(!contains_id(&Vec::new(), 0));
}
