use docker_rs_desktop::builder::{apply_supported_instructions, copy_destination, copy_layer_script, CopyLayer, ImageConfigModel};
use docker_rs_desktop::dockerfile::parse_dockerfile;
use docker_rs_desktop::model::RuntimeConfig;

fn empty_config() -> RuntimeConfig {
    RuntimeConfig {
        env: None,
        labels: None,
        exposed_ports: None,
        user: None,
        working_dir: None,
        cmd: None,
        entrypoint: None,
    }
}

fn label_value<'a>(labels: &'a [(String, String)], key: &str) -> Option<&'a str> {
    labels.iter().find(|(k, _)| k == key).map(|(_, v)| v.as_str())
}

#[test]
fn metadata_only_builder_updates_runtime_config() {
    let dockerfile = parse_dockerfile(
        r#"
FROM alpine:3.20
ENV APP_ENV=prod PORT=8080
LABEL org.opencontainers.image.title="demo"
EXPOSE 8080
USER app
WORKDIR /srv/app
CMD ["echo", "hello"]
ENTRYPOINT ["/bin/demo"]
"#,
    )
    .unwrap();

    let mut config = empty_config();
    config.env = Some(vec![String::from("PATH=/usr/bin")]);
    let mut image_config = ImageConfigModel { config: Some(config), history: None, copy_layers: Vec::new() };

    apply_supported_instructions(&dockerfile, &mut image_config).unwrap();

    let runtime = image_config.config.clone().unwrap();
    assert_eq!(
        runtime.env.clone().unwrap(),
        vec![
            String::from("PATH=/usr/bin"),
            String::from("APP_ENV=prod"),
            String::from("PORT=8080"),
        ]
    );
    assert_eq!(
        label_value(&runtime.labels.clone().unwrap(), "org.opencontainers.image.title"),
        Some("demo")
    );
    assert_eq!(runtime.exposed_ports.clone().unwrap(), vec![String::from("8080/tcp")]);
    assert_eq!(runtime.user.clone().unwrap(), "app");
    assert_eq!(runtime.working_dir.clone().unwrap(), "/srv/app");
    assert_eq!(runtime.cmd.clone().unwrap(), vec!["echo", "hello"]);
    assert_eq!(runtime.entrypoint.clone().unwrap(), vec!["/bin/demo"]);
}

#[test]
fn metadata_only_builder_rejects_run() {
    let dockerfile = parse_dockerfile(
        r#"
FROM alpine:3.20
RUN apk add curl
"#,
    )
    .unwrap();

    let mut image_config = ImageConfigModel { config: None, history: None, copy_layers: Vec::new() };

    let error = apply_supported_instructions(&dockerfile, &mut image_config).unwrap_err();
    assert!(error.contains("RUN"));
}

#[test]
fn builder_refusal_lists_each_unsupported_instruction() {
    let dockerfile = parse_dockerfile("FROM alpine:3.20\nRUN apk add curl\nCOPY --from=build a b /dst\nFROM busybox\n").unwrap();
    let mut image_config = ImageConfigModel { config: None, history: None, copy_layers: Vec::new() };
    let error = apply_supported_instructions(&dockerfile, &mut image_config).unwrap_err();
    assert!(error.starts_with(
        "native builder currently supports only metadata-changing Dockerfiles. Unsupported instructions: "
    ));
    assert!(error.contains("RUN apk add curl"));
    assert!(error.contains("COPY --from=build"));
    assert!(error.contains("multi-stage FROM"));
    assert!(image_config.config.is_none());
    assert!(image_config.history.is_none());
}

#[test]
fn builder_leaves_config_unchanged_when_refused() {
    let dockerfile = parse_dockerfile("FROM alpine\nENV A=1\nRUN true\n").unwrap();
    let mut config = empty_config();
    config.env = Some(vec![String::from("PATH=/bin")]);
    let mut image_config = ImageConfigModel { config: Some(config), history: Some(vec![String::from("base")]), copy_layers: Vec::new() };
    assert!(apply_supported_instructions(&dockerfile, &mut image_config).is_err());
    assert_eq!(image_config.config.unwrap().env.unwrap(), vec![String::from("PATH=/bin")]);
    assert_eq!(image_config.history.unwrap(), vec![String::from("base")]);
}

#[test]
fn builder_env_overrides_in_place_and_appends_new_keys() {
    let dockerfile = parse_dockerfile("FROM alpine\nENV B=3 C=4\n").unwrap();
    let mut config = empty_config();
    config.env = Some(vec![String::from("A=1"), String::from("B=2")]);
    let mut image_config = ImageConfigModel { config: Some(config), history: None, copy_layers: Vec::new() };
    apply_supported_instructions(&dockerfile, &mut image_config).unwrap();
    assert_eq!(
        image_config.config.unwrap().env.unwrap(),
        vec![String::from("A=1"), String::from("B=3"), String::from("C=4")]
    );
    assert_eq!(image_config.history.unwrap(), vec![String::from("ENV B=3 C=4")]);
}

#[test]
fn builder_expose_adds_default_protocol() {
    let dockerfile = parse_dockerfile("FROM alpine\nEXPOSE 80/udp 443\n").unwrap();
    let mut image_config = ImageConfigModel { config: None, history: None, copy_layers: Vec::new() };
    apply_supported_instructions(&dockerfile, &mut image_config).unwrap();
    assert_eq!(
        image_config.config.unwrap().exposed_ports.unwrap(),
        vec![String::from("80/udp"), String::from("443/tcp")]
    );
    assert_eq!(image_config.history.unwrap(), vec![String::from("EXPOSE 80/udp 443")]);
}

#[test]
fn builder_shell_form_command_runs_through_sh() {
    let dockerfile = parse_dockerfile("FROM alpine\nCMD echo hi\n").unwrap();
    let mut image_config = ImageConfigModel { config: None, history: None, copy_layers: Vec::new() };
    apply_supported_instructions(&dockerfile, &mut image_config).unwrap();
    assert_eq!(
        image_config.config.unwrap().cmd.unwrap(),
        vec![String::from("/bin/sh"), String::from("-c"), String::from("echo hi")]
    );
}

#[test]
fn builder_exec_form_history_is_quoted() {
    let dockerfile = parse_dockerfile("FROM alpine\nCMD [\"echo\", \"hello\"]\n").unwrap();
    let mut image_config = ImageConfigModel { config: None, history: None, copy_layers: Vec::new() };
    apply_supported_instructions(&dockerfile, &mut image_config).unwrap();
    assert_eq!(image_config.history.unwrap(), vec![String::from("CMD \"echo\", \"hello\"")]);
}

#[test]
fn builder_ignores_arg_before_from() {
    let dockerfile = parse_dockerfile("ARG VERSION=1\nFROM alpine\nUSER app\n").unwrap();
    let mut image_config = ImageConfigModel { config: None, history: None, copy_layers: Vec::new() };
    apply_supported_instructions(&dockerfile, &mut image_config).unwrap();
    assert_eq!(image_config.config.unwrap().user.unwrap(), "app");
}

#[test]
fn builder_refuses_arg_after_from() {
    let dockerfile = parse_dockerfile("FROM alpine\nARG VERSION\n").unwrap();
    let mut image_config = ImageConfigModel { config: None, history: None, copy_layers: Vec::new() };
    let error = apply_supported_instructions(&dockerfile, &mut image_config).unwrap_err();
    assert!(error.contains("ARG VERSION"));
}

#[test]
fn builder_refuses_unknown_instruction_in_upper_case() {
    let dockerfile = parse_dockerfile("FROM alpine\nADD a /b\n").unwrap();
    let mut image_config = ImageConfigModel { config: None, history: None, copy_layers: Vec::new() };
    let error = apply_supported_instructions(&dockerfile, &mut image_config).unwrap_err();
    assert!(error.contains("ADD a /b"));
}

#[test]
fn dockerfile_that_does_not_parse_is_reported() {
    let error = parse_dockerfile("FROM alpine\n123 oops\n").err();
    assert_eq!(error, Some(String::from("unable to parse Dockerfile")));
}

#[test]
fn builder_copy_with_glob_source_records_a_layer() {
    let dockerfile = parse_dockerfile("FROM alpine:3.20\nCOPY pkg/*.json ./\n").unwrap();
    let mut image_config = ImageConfigModel { config: None, history: None, copy_layers: Vec::new() };
    apply_supported_instructions(&dockerfile, &mut image_config).unwrap();
    assert_eq!(image_config.copy_layers.len(), 1);
    let layer = &image_config.copy_layers[0];
    assert_eq!(layer.sources, vec![String::from("pkg/*.json")]);
    assert_eq!(layer.destination, "/./");
    assert_eq!(layer.chown, None);
    assert_eq!(layer.chmod, None);
    assert_eq!(layer.history_index, 0);
    assert_eq!(image_config.history.unwrap(), vec![String::from("COPY pkg/*.json ./")]);
}

#[test]
fn builder_copy_honours_chown_chmod_and_workdir() {
    let dockerfile = parse_dockerfile(
        "FROM alpine\nWORKDIR /srv/app\nCOPY --chown=1000:1000 --chmod=644 a.txt b.txt conf/\nCOPY c.txt /etc/c.txt\n",
    )
    .unwrap();
    let mut image_config = ImageConfigModel { config: None, history: None, copy_layers: Vec::new() };
    apply_supported_instructions(&dockerfile, &mut image_config).unwrap();
    assert_eq!(image_config.copy_layers.len(), 2);
    let first = &image_config.copy_layers[0];
    assert_eq!(first.sources, vec![String::from("a.txt"), String::from("b.txt")]);
    assert_eq!(first.destination, "/srv/app/conf/");
    assert_eq!(first.chown.as_deref(), Some("1000:1000"));
    assert_eq!(first.chmod.as_deref(), Some("644"));
    assert_eq!(first.history_index, 1);
    let second = &image_config.copy_layers[1];
    assert_eq!(second.destination, "/etc/c.txt");
    assert_eq!(second.history_index, 2);
    assert_eq!(
        image_config.history.unwrap(),
        vec![
            String::from("WORKDIR /srv/app"),
            String::from("COPY --chown=1000:1000 --chmod=644 a.txt b.txt conf/"),
            String::from("COPY c.txt /etc/c.txt"),
        ]
    );
}

#[test]
fn builder_copy_keeps_earlier_layers() {
    let dockerfile = parse_dockerfile("FROM alpine\nCOPY a /a\n").unwrap();
    let earlier = CopyLayer {
        sources: vec![String::from("x")],
        destination: String::from("/x"),
        chown: None,
        chmod: None,
        history_index: 0,
    };
    let mut image_config =
        ImageConfigModel { config: None, history: Some(vec![String::from("base")]), copy_layers: vec![earlier] };
    apply_supported_instructions(&dockerfile, &mut image_config).unwrap();
    assert_eq!(image_config.copy_layers.len(), 2);
    assert_eq!(image_config.copy_layers[0].destination, "/x");
    assert_eq!(image_config.copy_layers[1].history_index, 1);
}

#[test]
fn builder_copy_refuses_malformed_chown_and_chmod() {
    let dockerfile = parse_dockerfile("FROM alpine\nCOPY --chown=app --chmod=999 a /a\n").unwrap();
    let mut image_config = ImageConfigModel { config: None, history: None, copy_layers: Vec::new() };
    let error = apply_supported_instructions(&dockerfile, &mut image_config).unwrap_err();
    assert!(error.contains("COPY --chown=app"));
    assert!(error.contains("COPY --chmod=999"));
    assert!(image_config.copy_layers.is_empty());
    assert!(image_config.history.is_none());
}

#[test]
fn copy_destination_is_relative_to_workdir() {
    assert_eq!(copy_destination(&Some(String::from("/srv")), "app/"), "/srv/app/");
    assert_eq!(copy_destination(&Some(String::from("/srv/")), "app"), "/srv/app");
    assert_eq!(copy_destination(&Some(String::new()), "app"), "/app");
    assert_eq!(copy_destination(&None, "/abs"), "/abs");
}

#[test]
fn copy_layer_script_copies_then_archives() {
    let layer = CopyLayer {
        sources: vec![String::from("/pkg/*.json"), String::from("a b")],
        destination: String::from("/srv/app/"),
        chown: Some(String::from("1000:1001")),
        chmod: Some(String::from("644")),
        history_index: 0,
    };
    let script = copy_layer_script(&layer, "/ctx", "/tmp/stage", "/tmp/layer.tar");
    assert_eq!(
        script,
        "set -e\ncd '/ctx'\nmkdir -p '/tmp/stage/srv/app/'\nfor f in \\p\\k\\g\\/*\\.\\j\\s\\o\\n \\a\\ \\b; do if [ -d \"$f\" ]; then cp -R -- \"$f\"/. '/tmp/stage/srv/app/'/; else cp -- \"$f\" '/tmp/stage/srv/app/'/; fi; done\ntar -cf '/tmp/layer.tar' --owner=1000 --group=1001 --mode=644 --numeric-owner -C '/tmp/stage' ."
    );
}
