use includer::codegen::{AnyPipeline, Pipeline};
use includer::path::{extension_of, normalize_path, relative_path_of, segments_of};
use includer::pipeline::sibling_path;
use includer::{
    Assets, AssetsBuilder, Codegen, Compression, Filter, FilterListType, FilterRule, FoundFile,
    PipelineError, Visit, WebAssets,
};

fn found(path: &str, has_gz: bool, has_br: bool) -> FoundFile {
    FoundFile { path: path.to_string(), has_gz, has_br }
}

#[test]
fn round_trip_one_text_file() {
    let a = Assets::new("DATA", "fixtures").filter(Filter::exclude_extension("png").unwrap());
    assert_eq!(a.visit("fixtures", true), Ok(Visit::Skip));
    assert_eq!(a.visit("fixtures/a.txt", false), Ok(Visit::Take));
    assert_eq!(a.visit("fixtures/b.png", false), Ok(Visit::Skip));
    let out = a.render(&vec!["fixtures/a.txt".to_string()]).unwrap();
    assert_eq!(
        out,
        "const DATA: [Asset; 1] = [Asset { uri: \"/a.txt\", data: include_bytes!(\"fixtures/a.txt\") }];"
    );
}

#[test]
fn exclusion_before_inclusion_wins() {
    let a = Assets::new("A", "root")
        .whitelist()
        .filter(Filter::exclude_extension("txt").unwrap())
        .filter(Filter::include_extension("txt").unwrap());
    assert_eq!(a.visit("root/notes/a.txt", false), Ok(Visit::Skip));
    let b = Assets::new("A", "root")
        .blacklist()
        .filter(Filter::exclude_extension("txt").unwrap())
        .filter(Filter::include_extension("txt").unwrap());
    assert_eq!(b.visit("root/a.txt", false), Ok(Visit::Skip));
}

#[test]
fn inclusion_before_exclusion_wins() {
    let a = Assets::new("A", "root")
        .filter(Filter::include_extension("txt").unwrap())
        .filter(Filter::exclude_extension("txt").unwrap());
    assert_eq!(a.visit("root/a.txt", false), Ok(Visit::Take));
}

#[test]
fn empty_blacklist_takes_everything() {
    let a = Assets::new("A", "root");
    assert_eq!(a.visit("root/a.txt", false), Ok(Visit::Take));
    assert_eq!(a.visit("root/x/y/image.png", false), Ok(Visit::Take));
    assert_eq!(a.visit("root/noext", false), Ok(Visit::Take));
}

#[test]
fn empty_whitelist_stops_the_walk() {
    let a = Assets::new("A", "root").whitelist();
    assert_eq!(a.visit("root/sub", true), Ok(Visit::Skip));
    assert_eq!(a.visit("root/a.txt", false), Ok(Visit::Stop));
    let w = WebAssets::new("A", "root").whitelist();
    assert_eq!(w.visit("root/index.html", false), Ok(Visit::Stop));
}

#[test]
fn unmatched_path_follows_the_policy() {
    let black = Assets::new("A", "root").filter(Filter::include_extension("css").unwrap());
    assert_eq!(black.visit("root/a.js", false), Ok(Visit::Take));
    let white = Assets::new("A", "root")
        .whitelist()
        .filter(Filter::include_extension("css").unwrap());
    assert_eq!(white.visit("root/a.js", false), Ok(Visit::Skip));
    assert_eq!(white.visit("root/a.css", false), Ok(Visit::Take));
}

#[test]
fn regex_matches_the_relative_path() {
    let a = Assets::new("A", "web/dist")
        .whitelist()
        .filter(Filter::include_regex(r"^styles/.*\.css$").unwrap());
    assert_eq!(a.visit("web/dist/styles/site.css", false), Ok(Visit::Take));
    assert_eq!(a.visit("web/dist/other/site.css", false), Ok(Visit::Skip));
    assert_eq!(a.visit("web/dist/styles/site.js", false), Ok(Visit::Skip));
}

#[test]
fn regex_exclusion_of_a_folder() {
    let a = Assets::new("A", "lua")
        .whitelist()
        .filter(Filter::exclude_regex(r"^admin/.*$").unwrap())
        .filter(Filter::include_extension("lua").unwrap());
    assert_eq!(a.visit("lua/admin/panel.lua", false), Ok(Visit::Skip));
    assert_eq!(a.visit("lua/game/main.lua", false), Ok(Visit::Take));
}

#[test]
fn invalid_rules_are_refused() {
    assert!(matches!(FilterRule::extension(".html"), Err(PipelineError::InvalidRule)));
    assert!(matches!(Filter::include_extension(".css"), Err(PipelineError::InvalidRule)));
    assert!(matches!(FilterRule::regex(r"\h"), Err(PipelineError::InvalidRule)));
    assert!(matches!(Filter::exclude_regex("foo(bar"), Err(PipelineError::InvalidRule)));
    assert!(matches!(FilterRule::extension("html"), Ok(FilterRule::Extension(_))));
    assert!(matches!(FilterRule::regex(r"^a$"), Ok(FilterRule::Regex(_))));
}

#[test]
fn rule_matching() {
    let ext = FilterRule::extension("gz").unwrap();
    assert!(ext.matches("a/b.tar.gz"));
    assert!(!ext.matches("a/b.tar"));
    assert!(!ext.matches("a/.gz"));
    let re = FilterRule::regex("b+").unwrap();
    assert!(re.matches("abbc"));
    assert!(!re.matches("ac"));
}

#[test]
fn path_outside_root_is_an_error() {
    let a = Assets::new("A", "root");
    assert_eq!(a.visit("elsewhere/a.txt", false), Err(PipelineError::PathError));
    assert_eq!(
        a.render(&vec!["elsewhere/a.txt".to_string()]),
        Err(PipelineError::PathError)
    );
    assert_eq!(
        normalize_path("/abs/a.txt", "abs", "/", false),
        Err(PipelineError::PathError)
    );
}

#[test]
fn plain_pipeline_without_files_fails() {
    let a = Assets::new("A", "root");
    assert_eq!(a.render(&vec![]), Err(PipelineError::EmptyResult));
}

#[test]
fn web_pipeline_without_files_is_empty() {
    let w = WebAssets::new("ASSETS", "root");
    assert_eq!(
        w.render(&vec![]),
        Ok("const ASSETS: [WebAsset; 0] = [];\n".to_string())
    );
}

#[test]
fn invalid_identifier_is_refused() {
    let a = Assets::new("1ABC", "root");
    assert_eq!(
        a.render(&vec!["root/a.txt".to_string()]),
        Err(PipelineError::InvalidIdentifier)
    );
    let w = WebAssets::new("two words", "root");
    assert_eq!(w.render(&vec![]), Err(PipelineError::InvalidIdentifier));
}

#[test]
fn index_page_served_at_its_directory() {
    assert_eq!(
        normalize_path("web/dist/about/index.html", "web/dist", "/", true),
        Ok("/about".to_string())
    );
    assert_eq!(
        normalize_path("web/dist/index.html", "web/dist", "/", true),
        Ok("/".to_string())
    );
    assert_eq!(
        normalize_path("web/dist/about/index.html", "web/dist", "/", false),
        Ok("/about/index.html".to_string())
    );
    assert_eq!(
        normalize_path("web/dist/about", "web/dist", "/", false),
        Ok("/about".to_string())
    );
}

#[test]
fn uri_uses_the_prefix() {
    assert_eq!(
        normalize_path("./web/dist/assets/app.js", "./web/dist/assets", "/assets", false),
        Ok("/assets/app.js".to_string())
    );
    assert_eq!(
        normalize_path("dist/css/site.css", "dist", "static/", true),
        Ok("/static/css/site.css".to_string())
    );
    assert!(normalize_path("d/x", "d", "", false).unwrap().starts_with('/'));
}

#[test]
fn path_helpers() {
    assert_eq!(segments_of("/a//b/c/"), vec!["a", "b", "c"]);
    assert_eq!(extension_of("dir/file.tar.gz"), Some("gz".to_string()));
    assert_eq!(extension_of("dir/.hidden"), None);
    assert_eq!(extension_of("dir/noext"), None);
    assert_eq!(extension_of("dir/trailing."), Some("".to_string()));
    assert_eq!(relative_path_of("r/a/b.txt", "r"), Some("a/b.txt".to_string()));
    assert_eq!(relative_path_of("r/a/b.txt", "s"), None);
}

#[test]
fn sibling_paths() {
    assert_eq!(sibling_path("dist/app.js", Compression::Gzip), "dist/app.js.gz");
    assert_eq!(sibling_path("dist/app.js", Compression::Brotli), "dist/app.js.br");
}

#[test]
fn compressed_variant_is_not_a_record() {
    let w = WebAssets::new("ASSETS", "dist");
    assert_eq!(w.visit("dist/app.js", false), Ok(Visit::Take));
    assert_eq!(w.visit("dist/app.js.gz", false), Ok(Visit::Skip));
    assert_eq!(w.visit("dist/app.js.br", false), Ok(Visit::Skip));
    let filtered = WebAssets::new("ASSETS", "dist").filter(Filter::include_extension("gz").unwrap());
    assert_eq!(filtered.visit("dist/app.js.gz", false), Ok(Visit::Skip));
    let off = WebAssets::new("ASSETS", "dist").gzip(false);
    assert_eq!(off.visit("dist/app.js.gz", false), Ok(Visit::Take));
    assert_eq!(off.visit("dist/app.js.br", false), Ok(Visit::Skip));
}

#[test]
fn web_render_embeds_found_variants() {
    let w = WebAssets::new("ASSETS", "dist");
    let out = w
        .render(&vec![found("dist/index.html", true, false), found("dist/app.js", false, true)])
        .unwrap();
    assert_eq!(
        out,
        "const ASSETS: [WebAsset; 2] = [WebAsset { uri: \"/\", data: include_bytes!(\"dist/index.html\"), data_gz: Some(include_bytes!(\"dist/index.html.gz\")), data_br: None, mime: \"text/plain\" }, WebAsset { uri: \"/app.js\", data: include_bytes!(\"dist/app.js\"), data_gz: None, data_br: Some(include_bytes!(\"dist/app.js.br\")), mime: \"text/plain\" }];\n"
    );
}

#[test]
fn disabled_variant_is_not_embedded() {
    let w = WebAssets::new("ASSETS", "dist").gzip(false);
    let out = w.render(&vec![found("dist/a.css", true, false)]).unwrap();
    assert!(out.contains("data_gz: None"));
}

#[test]
fn string_literals_are_escaped() {
    let a = Assets::new("Q", "r");
    let out = a.render(&vec!["r/say \"hi\".txt".to_string()]).unwrap();
    assert_eq!(
        out,
        "const Q: [Asset; 1] = [Asset { uri: \"/say \\\"hi\\\".txt\", data: include_bytes!(\"r/say \\\"hi\\\".txt\") }];"
    );
}

#[test]
fn many_records_are_counted() {
    let a = Assets::new("MANY", "r");
    let files: Vec<String> = (0..12).map(|i| format!("r/f{}.txt", i)).collect();
    let out = a.render(&files).unwrap();
    assert!(out.starts_with("const MANY: [Asset; 12] = [Asset { uri: \"/f0.txt\""));
    assert_eq!(out.matches("Asset { uri").count(), 12);
}

#[test]
fn builder_maps_extensions_to_filters() {
    let b = AssetsBuilder::new("ASSETS", "dist")
        .whitelist()
        .include_ext("js")
        .include_ext("css")
        .exclude("map");
    let w = b.web_assets().unwrap();
    assert_eq!(w.visit("dist/app.js", false), Ok(Visit::Take));
    assert_eq!(w.visit("dist/site.css", false), Ok(Visit::Take));
    assert_eq!(w.visit("dist/app.js.map", false), Ok(Visit::Skip));
    let black = AssetsBuilder::new("ASSETS", "dist").exclude("map").web_assets().unwrap();
    assert_eq!(black.visit("dist/app.js.map", false), Ok(Visit::Skip));
    assert_eq!(black.visit("dist/app.js", false), Ok(Visit::Take));
    assert!(matches!(
        AssetsBuilder::new("A", "d").exclude(".map").web_assets(),
        Err(PipelineError::InvalidRule)
    ));
}

#[test]
fn codegen_registry() {
    let c = Codegen::<AnyPipeline>::new();
    assert_eq!(c.path(), None);
    assert_eq!(c.destination(), Err(PipelineError::PathNotSet));
    let c = c.set_path("./out/gen.rs");
    assert_eq!(c.path(), Some("./out/gen.rs"));
    let c = c
        .pipe(AnyPipeline::Assets(Assets::new("ASSETS", "../web/dist").build()))
        .pipe(AnyPipeline::Web(WebAssets::new("WEB", "dist").build()));
    assert_eq!(c.pipelines().len(), 2);
    assert_eq!(c.pipelines()[0].path(), "../web/dist");
    assert_eq!(c.pipelines()[1].path(), "dist");
    assert!(c.pipelines()[1].probes(Compression::Gzip));
    assert!(!c.pipelines()[0].probes(Compression::Gzip));
    assert_eq!(Codegen::<AnyPipeline>::with_out_dir("/tmp/out").path(), Some("/tmp/out/assets.rs"));
    assert_eq!(Codegen::<AnyPipeline>::with_out_dir("/tmp/out/").path(), Some("/tmp/out/assets.rs"));
}

#[test]
fn pipeline_dispatch_renders_each_kind() {
    let plain = AnyPipeline::Assets(Assets::new("A", "r").build());
    assert_eq!(
        plain.render(&vec![found("r/x", true, true)]),
        Ok("const A: [Asset; 1] = [Asset { uri: \"/x\", data: include_bytes!(\"r/x\") }];".to_string())
    );
    assert_eq!(plain.render(&vec![]), Err(PipelineError::EmptyResult));
    let web = AnyPipeline::Web(WebAssets::new("W", "r").build());
    assert_eq!(web.visit("r/x.br", false), Ok(Visit::Skip));
    assert_eq!(web.render(&vec![]), Ok("const W: [WebAsset; 0] = [];\n".to_string()));
}

#[test]
fn policy_values() {
    assert_ne!(FilterListType::Blacklist, FilterListType::Whitelist);
}

struct Fixed;

impl Pipeline for Fixed {
    fn root(&self) -> &str {
        "fixed"
    }

    fn probes_for(&self, _compression: Compression) -> bool {
        false
    }

    fn decide(&self, _entry: &str, _is_dir: bool) -> Result<Visit, PipelineError> {
        Ok(Visit::Stop)
    }

    fn generate(&self, _files: &Vec<FoundFile>) -> Result<String, PipelineError> {
        Ok("const NOTHING: () = ();".to_string())
    }
}

#[test]
fn registry_takes_pipelines_of_its_users() {
    let c = Codegen::new().pipe(Fixed).pipe(Fixed);
    assert_eq!(c.pipelines().len(), 2);
    assert_eq!(c.pipelines()[1].root(), "fixed");
    assert_eq!(c.pipelines()[0].generate(&vec![]), Ok("const NOTHING: () = ();".to_string()));
}

#[test]
fn trait_calls_reach_each_kind() {
    let a = Assets::new("A", "r");
    assert_eq!(a.decide("r/x.txt", false), Ok(Visit::Take));
    assert_eq!(
        a.generate(&vec![found("r/x.txt", true, false)]),
        Ok("const A: [Asset; 1] = [Asset { uri: \"/x.txt\", data: include_bytes!(\"r/x.txt\") }];".to_string())
    );
    let w = WebAssets::new("W", "r").brotli(false);
    assert!(w.probes_for(Compression::Gzip));
    assert!(!w.probes_for(Compression::Brotli));
    assert_eq!(w.root(), "r");
}

#[test]
fn builder_runs_as_a_pipeline() {
    let b = AssetsBuilder::new("ASSETS", "dist").whitelist().include_ext("js").gzip(false);
    assert_eq!(b.root(), "dist");
    assert!(!b.probes_for(Compression::Gzip));
    assert!(b.probes_for(Compression::Brotli));
    assert_eq!(b.decide("dist/a.js", false), Ok(Visit::Take));
    assert_eq!(b.decide("dist/a.css", false), Ok(Visit::Skip));
    assert_eq!(
        b.generate(&vec![found("dist/a.js", true, false)]),
        Ok("const ASSETS: [WebAsset; 1] = [WebAsset { uri: \"/a.js\", data: include_bytes!(\"dist/a.js\"), data_gz: None, data_br: None, mime: \"text/plain\" }];\n".to_string())
    );
    let bad = AssetsBuilder::new("A", "d").exclude(".x");
    assert_eq!(bad.decide("d/a", false), Err(PipelineError::InvalidRule));
    let c = Codegen::new().pipe(b).pipe(bad);
    assert_eq!(c.pipelines().len(), 2);
}

#[test]
fn nul_in_a_path_is_refused() {
    let a = Assets::new("A", "r");
    assert_eq!(a.render(&vec!["r/a\0b".to_string()]), Err(PipelineError::PathError));
    let w = WebAssets::new("W", "r");
    assert_eq!(w.render(&vec![found("r/a\07", true, true)]), Err(PipelineError::PathError));
    let p = WebAssets::new("W", "r").prefix("/x\0");
    assert_eq!(p.render(&vec![found("r/a", false, false)]), Err(PipelineError::PathError));
}

#[test]
fn keywords_cannot_name_the_constant() {
    let a = Assets::new("fn", "r");
    assert_eq!(a.render(&vec!["r/a".to_string()]), Err(PipelineError::InvalidIdentifier));
    let w = WebAssets::new("Self", "r");
    assert_eq!(w.render(&vec![]), Err(PipelineError::InvalidIdentifier));
}
