//! The cleanup rule table.
//!
//! A [`CleanupRule`] describes where to look and how safe removal is: either
//! fixed, env-expandable known paths ([`PathSpec`]) or artifact directory
//! names discovered by the pruned project walk ([`DirPattern`]). Rules never
//! touch the file system themselves.

use vstd::prelude::*;

use crate::detect::tool_table;
use crate::model::{Category, SafetyTier};

verus! {

/// A fixed known path with env tokens understood by the path expander (e.g.
/// `%LOCALAPPDATA%/uv/cache`).
#[derive(Debug, Clone, Copy)]
pub struct PathSpec {
    pub raw: &'static str,
}

impl PathSpec {
    pub fn new(raw: &'static str) -> (r: Self)
        ensures
            r.raw == raw,
    {
        PathSpec { raw }
    }
}

/// Artifact directory names located by the pruned walk. A matching directory
/// is reported and not descended into.
#[derive(Debug, Clone, Copy)]
pub struct DirPattern {
    pub names: &'static [&'static str],
}

/// A single cleanup rule.
#[derive(Debug)]
pub struct CleanupRule {
    pub id: &'static str,
    pub label: &'static str,
    pub category: Category,
    pub tier: SafetyTier,
    /// Fixed known locations (env-expandable). Empty for pattern rules.
    pub locations: Vec<PathSpec>,
    /// Directory-name pattern discovered by the pruned walk; `None` for
    /// fixed-location rules.
    pub pattern: Option<DirPattern>,
    /// Whether the target regenerates automatically after deletion.
    pub regenerates: bool,
    /// Why removal is safe / what regenerates.
    pub note: &'static str,
    /// Only surface this rule when the named tool is on PATH.
    pub requires_tool: Option<&'static str>,
}

/// The facts a rule carries, as mathematical values.
pub ghost struct RuleFacts {
    pub id: Seq<char>,
    pub label: Seq<char>,
    pub category: Category,
    pub tier: SafetyTier,
    pub locations: Seq<Seq<char>>,
    pub pattern: Option<Seq<Seq<char>>>,
    pub regenerates: bool,
    pub note: Seq<char>,
    pub requires_tool: Option<Seq<char>>,
}

/// The names of a pattern, as character sequences.
pub open spec fn pattern_names(p: DirPattern) -> Seq<Seq<char>> {
    p.names@.map_values(|n: &str| n@)
}

/// The facts of a rule.
pub open spec fn facts(r: CleanupRule) -> RuleFacts {
    RuleFacts {
        id: r.id@,
        label: r.label@,
        category: r.category,
        tier: r.tier,
        locations: r.locations@.map_values(|p: PathSpec| p.raw@),
        pattern: match r.pattern {
            Some(p) => Some(pattern_names(p)),
            None => None,
        },
        regenerates: r.regenerates,
        note: r.note@,
        requires_tool: match r.requires_tool {
            Some(t) => Some(t@),
            None => None,
        },
    }
}
pub const UV_CACHE_NOTE: &'static str = "Cached wheels and source distributions downloaded by uv. Safe to remove; uv re-downloads packages on the next install.";
pub const NPM_CACHE_NOTE: &'static str = "npm's package download cache. Safe to remove; npm rebuilds it automatically. Equivalent to `npm cache clean --force`.";
pub const GRADLE_CACHES_NOTE: &'static str = "Downloaded dependencies and build caches for Gradle. Safe to remove; Gradle re-downloads and re-derives them on the next build.";
pub const BUN_CACHE_NOTE: &'static str = "Bun's global package install cache. Safe to remove; Bun re-populates it on the next install.";
pub const DART_PUB_CACHE_NOTE: &'static str = "Dart/Flutter package cache (Pub) and analysis-server scratch data. Safe to remove; pub re-fetches packages and the analyzer rebuilds its index on the next run.";
pub const PNPM_STORE_NOTE: &'static str = "pnpm's global content-addressable package store. Safe to remove; pnpm refetches packages on the next install.";
pub const YARN_CACHE_NOTE: &'static str = "Yarn's global package cache. Safe to remove; Yarn rebuilds it on the next install.";
pub const CARGO_REGISTRY_NOTE: &'static str = "Downloaded crate archives and unpacked sources for Cargo. Safe to remove; Cargo re-downloads crates on the next build.";
pub const PIP_CACHE_NOTE: &'static str = "pip's wheel/download cache. Safe to remove; pip re-downloads packages when needed.";
pub const GO_CACHE_NOTE: &'static str = "Go's compiled build cache and module download cache. Safe to remove; the toolchain rebuilds and re-downloads as needed.";
pub const PLAYWRIGHT_BROWSERS_NOTE: &'static str = "Chromium/Firefox/WebKit builds downloaded by Playwright. Safe to remove; re-downloaded via `npx playwright install` when tests next need them.";
pub const WINDOWS_TEMP_NOTE: &'static str = "Per-user temporary files. Generally safe to remove; running programs recreate anything they still need. Files locked by a running process are skipped automatically.";
pub const EDITOR_STATE_VSCDB_NOTE: &'static str = "A VS Code-family editor's global UI state store (recent files, view layout, some extension state). Removing it resets UI state but not your code. Contains user data, so it is never pre-selected.";
pub const EDITOR_WORKSPACE_STORAGE_NOTE: &'static str = "Per-workspace cache for VS Code-family editors (indexes, panel layout, some extension caches). Regenerates as you reopen projects; review before removing since it clears per-project UI state.";
pub const JETBRAINS_CACHES_NOTE: &'static str = "Caches and indexes for JetBrains IDEs (IntelliJ, PyCharm, etc.). Regenerated on next launch; review before removing.";
pub const LMSTUDIO_MODELS_NOTE: &'static str = "Local LLM weights downloaded via LM Studio. These are large but must be re-downloaded (often many GB) if removed. Treated as user data and never pre-selected.";
pub const HUGGINGFACE_CACHE_NOTE: &'static str = "Model weights/datasets cached by Hugging Face / PyTorch. Large, but must be re-downloaded if removed. Treated as user data and never pre-selected.";
pub const NODE_MODULES_NOTE: &'static str = "Installed JavaScript dependencies for a project. Regenerated by `npm install` / `bun install`. Review before removing — reinstalling requires network access and time.";
pub const BUILD_DIRS_NOTE: &'static str = "Compiler/bundler output and tool caches (Rust `target`, `build`, Next.js `.next`, `dist`, Dart `.dart_tool`, Turbo, Parcel, SvelteKit, Nuxt, Python `__pycache__`/`.pytest_cache`/`.mypy_cache`). Regenerated by the next build/run. Review before removing.";

/// The seed rule table, roughly by category for stable output.
pub open spec fn rule_table() -> Seq<RuleFacts> {
    seq![
        RuleFacts {
            id: "uv-cache"@,
            label: "Python uv cache"@,
            category: Category::PackageCache,
            tier: SafetyTier::Safe,
            locations: seq!["%LOCALAPPDATA%/uv/cache"@],
            pattern: None,
            regenerates: true,
            note: UV_CACHE_NOTE@,
            requires_tool: Some("uv"@),
        },
        RuleFacts {
            id: "npm-cache"@,
            label: "npm cache"@,
            category: Category::PackageCache,
            tier: SafetyTier::Safe,
            locations: seq!["%LOCALAPPDATA%/npm-cache"@],
            pattern: None,
            regenerates: true,
            note: NPM_CACHE_NOTE@,
            requires_tool: Some("npm"@),
        },
        RuleFacts {
            id: "gradle-caches"@,
            label: "Gradle caches"@,
            category: Category::PackageCache,
            tier: SafetyTier::Safe,
            locations: seq!["%USERPROFILE%/.gradle/caches"@],
            pattern: None,
            regenerates: true,
            note: GRADLE_CACHES_NOTE@,
            requires_tool: Some("gradle"@),
        },
        RuleFacts {
            id: "bun-cache"@,
            label: "Bun install cache"@,
            category: Category::PackageCache,
            tier: SafetyTier::Safe,
            locations: seq!["%USERPROFILE%/.bun/install/cache"@],
            pattern: None,
            regenerates: true,
            note: BUN_CACHE_NOTE@,
            requires_tool: Some("bun"@),
        },
        RuleFacts {
            id: "dart-pub-cache"@,
            label: "Dart pub cache"@,
            category: Category::PackageCache,
            tier: SafetyTier::Safe,
            locations: seq!["%LOCALAPPDATA%/Pub/Cache"@, "%LOCALAPPDATA%/.dartServer"@],
            pattern: None,
            regenerates: true,
            note: DART_PUB_CACHE_NOTE@,
            requires_tool: Some("dart"@),
        },
        RuleFacts {
            id: "pnpm-store"@,
            label: "pnpm content store"@,
            category: Category::PackageCache,
            tier: SafetyTier::Safe,
            locations: seq!["%LOCALAPPDATA%/pnpm/store"@, "%LOCALAPPDATA%/pnpm-cache"@],
            pattern: None,
            regenerates: true,
            note: PNPM_STORE_NOTE@,
            requires_tool: Some("pnpm"@),
        },
        RuleFacts {
            id: "yarn-cache"@,
            label: "Yarn cache"@,
            category: Category::PackageCache,
            tier: SafetyTier::Safe,
            locations: seq!["%LOCALAPPDATA%/Yarn/Cache"@],
            pattern: None,
            regenerates: true,
            note: YARN_CACHE_NOTE@,
            requires_tool: Some("yarn"@),
        },
        RuleFacts {
            id: "cargo-registry"@,
            label: "Cargo registry cache"@,
            category: Category::PackageCache,
            tier: SafetyTier::Safe,
            locations: seq!["%USERPROFILE%/.cargo/registry/cache"@, "%USERPROFILE%/.cargo/registry/src"@],
            pattern: None,
            regenerates: true,
            note: CARGO_REGISTRY_NOTE@,
            requires_tool: Some("cargo"@),
        },
        RuleFacts {
            id: "pip-cache"@,
            label: "pip download cache"@,
            category: Category::PackageCache,
            tier: SafetyTier::Safe,
            locations: seq!["%LOCALAPPDATA%/pip/cache"@],
            pattern: None,
            regenerates: true,
            note: PIP_CACHE_NOTE@,
            requires_tool: Some("pip"@),
        },
        RuleFacts {
            id: "go-cache"@,
            label: "Go build & module cache"@,
            category: Category::PackageCache,
            tier: SafetyTier::Safe,
            locations: seq!["%LOCALAPPDATA%/go-build"@, "%USERPROFILE%/go/pkg/mod/cache"@],
            pattern: None,
            regenerates: true,
            note: GO_CACHE_NOTE@,
            requires_tool: Some("go"@),
        },
        RuleFacts {
            id: "playwright-browsers"@,
            label: "Playwright browsers"@,
            category: Category::Browser,
            tier: SafetyTier::Safe,
            locations: seq!["%LOCALAPPDATA%/ms-playwright"@],
            pattern: None,
            regenerates: true,
            note: PLAYWRIGHT_BROWSERS_NOTE@,
            requires_tool: None,
        },
        RuleFacts {
            id: "windows-temp"@,
            label: "User temp files"@,
            category: Category::Temp,
            tier: SafetyTier::Safe,
            locations: seq!["%LOCALAPPDATA%/Temp"@],
            pattern: None,
            regenerates: true,
            note: WINDOWS_TEMP_NOTE@,
            requires_tool: None,
        },
        RuleFacts {
            id: "editor-state-vscdb"@,
            label: "Editor UI state database"@,
            category: Category::EditorStorage,
            tier: SafetyTier::Caution,
            locations: seq!["%APPDATA%/Code/User/globalStorage/state.vscdb"@, "%APPDATA%/Code/User/globalStorage/state.vscdb.backup"@, "%APPDATA%/Cursor/User/globalStorage/state.vscdb"@, "%APPDATA%/Cursor/User/globalStorage/state.vscdb.backup"@, "%APPDATA%/Windsurf/User/globalStorage/state.vscdb"@, "%APPDATA%/Windsurf/User/globalStorage/state.vscdb.backup"@, "%APPDATA%/Trae/User/globalStorage/state.vscdb"@, "%APPDATA%/Trae/User/globalStorage/state.vscdb.backup"@, "%APPDATA%/VSCodium/User/globalStorage/state.vscdb"@, "%APPDATA%/VSCodium/User/globalStorage/state.vscdb.backup"@],
            pattern: None,
            regenerates: true,
            note: EDITOR_STATE_VSCDB_NOTE@,
            requires_tool: None,
        },
        RuleFacts {
            id: "editor-workspace-storage"@,
            label: "Editor workspace storage"@,
            category: Category::EditorStorage,
            tier: SafetyTier::Review,
            locations: seq!["%APPDATA%/Code/User/workspaceStorage"@, "%APPDATA%/Cursor/User/workspaceStorage"@, "%APPDATA%/Windsurf/User/workspaceStorage"@, "%APPDATA%/Trae/User/workspaceStorage"@, "%APPDATA%/VSCodium/User/workspaceStorage"@],
            pattern: None,
            regenerates: true,
            note: EDITOR_WORKSPACE_STORAGE_NOTE@,
            requires_tool: None,
        },
        RuleFacts {
            id: "jetbrains-caches"@,
            label: "JetBrains IDE caches"@,
            category: Category::EditorStorage,
            tier: SafetyTier::Review,
            locations: seq!["%LOCALAPPDATA%/JetBrains"@],
            pattern: None,
            regenerates: true,
            note: JETBRAINS_CACHES_NOTE@,
            requires_tool: None,
        },
        RuleFacts {
            id: "lmstudio-models"@,
            label: "LM Studio models"@,
            category: Category::Model,
            tier: SafetyTier::Caution,
            locations: seq!["%USERPROFILE%/.lmstudio"@, "%USERPROFILE%/.cache/lm-studio"@],
            pattern: None,
            regenerates: false,
            note: LMSTUDIO_MODELS_NOTE@,
            requires_tool: None,
        },
        RuleFacts {
            id: "huggingface-cache"@,
            label: "Hugging Face model cache"@,
            category: Category::Model,
            tier: SafetyTier::Caution,
            locations: seq!["%USERPROFILE%/.cache/huggingface"@, "%USERPROFILE%/.cache/torch"@],
            pattern: None,
            regenerates: false,
            note: HUGGINGFACE_CACHE_NOTE@,
            requires_tool: None,
        },
        RuleFacts {
            id: "node-modules"@,
            label: "node_modules folders"@,
            category: Category::BuildArtifact,
            tier: SafetyTier::Review,
            locations: Seq::empty(),
            pattern: Some(seq!["node_modules"@]),
            regenerates: true,
            note: NODE_MODULES_NOTE@,
            requires_tool: None,
        },
        RuleFacts {
            id: "build-dirs"@,
            label: "Build output folders"@,
            category: Category::BuildArtifact,
            tier: SafetyTier::Review,
            locations: Seq::empty(),
            pattern: Some(seq!["target"@, "build"@, ".next"@, "dist"@, ".dart_tool"@, ".turbo"@, ".parcel-cache"@, ".svelte-kit"@, ".nuxt"@, "__pycache__"@, ".pytest_cache"@, ".mypy_cache"@]),
            regenerates: true,
            note: BUILD_DIRS_NOTE@,
            requires_tool: None,
        },
    ]
}

fn rule_uv_cache() -> (r: CleanupRule)
    ensures
        facts(r) == rule_table()[0],
{
    let r = CleanupRule {
        id: "uv-cache",
        label: "Python uv cache",
        category: Category::PackageCache,
        tier: SafetyTier::Safe,
        locations: vec![PathSpec::new("%LOCALAPPDATA%/uv/cache")],
        pattern: None,
        regenerates: true,
        note: UV_CACHE_NOTE,
        requires_tool: Some("uv"),
    };
    assert(r.locations@.map_values(|p: PathSpec| p.raw@) =~= rule_table()[0].locations);
    r
}

fn rule_npm_cache() -> (r: CleanupRule)
    ensures
        facts(r) == rule_table()[1],
{
    let r = CleanupRule {
        id: "npm-cache",
        label: "npm cache",
        category: Category::PackageCache,
        tier: SafetyTier::Safe,
        locations: vec![PathSpec::new("%LOCALAPPDATA%/npm-cache")],
        pattern: None,
        regenerates: true,
        note: NPM_CACHE_NOTE,
        requires_tool: Some("npm"),
    };
    assert(r.locations@.map_values(|p: PathSpec| p.raw@) =~= rule_table()[1].locations);
    r
}

fn rule_gradle_caches() -> (r: CleanupRule)
    ensures
        facts(r) == rule_table()[2],
{
    let r = CleanupRule {
        id: "gradle-caches",
        label: "Gradle caches",
        category: Category::PackageCache,
        tier: SafetyTier::Safe,
        locations: vec![PathSpec::new("%USERPROFILE%/.gradle/caches")],
        pattern: None,
        regenerates: true,
        note: GRADLE_CACHES_NOTE,
        requires_tool: Some("gradle"),
    };
    assert(r.locations@.map_values(|p: PathSpec| p.raw@) =~= rule_table()[2].locations);
    r
}

fn rule_bun_cache() -> (r: CleanupRule)
    ensures
        facts(r) == rule_table()[3],
{
    let r = CleanupRule {
        id: "bun-cache",
        label: "Bun install cache",
        category: Category::PackageCache,
        tier: SafetyTier::Safe,
        locations: vec![PathSpec::new("%USERPROFILE%/.bun/install/cache")],
        pattern: None,
        regenerates: true,
        note: BUN_CACHE_NOTE,
        requires_tool: Some("bun"),
    };
    assert(r.locations@.map_values(|p: PathSpec| p.raw@) =~= rule_table()[3].locations);
    r
}

fn rule_dart_pub_cache() -> (r: CleanupRule)
    ensures
        facts(r) == rule_table()[4],
{
    let r = CleanupRule {
        id: "dart-pub-cache",
        label: "Dart pub cache",
        category: Category::PackageCache,
        tier: SafetyTier::Safe,
        locations: vec![PathSpec::new("%LOCALAPPDATA%/Pub/Cache"), PathSpec::new("%LOCALAPPDATA%/.dartServer")],
        pattern: None,
        regenerates: true,
        note: DART_PUB_CACHE_NOTE,
        requires_tool: Some("dart"),
    };
    assert(r.locations@.map_values(|p: PathSpec| p.raw@) =~= rule_table()[4].locations);
    r
}

fn rule_pnpm_store() -> (r: CleanupRule)
    ensures
        facts(r) == rule_table()[5],
{
    let r = CleanupRule {
        id: "pnpm-store",
        label: "pnpm content store",
        category: Category::PackageCache,
        tier: SafetyTier::Safe,
        locations: vec![PathSpec::new("%LOCALAPPDATA%/pnpm/store"), PathSpec::new("%LOCALAPPDATA%/pnpm-cache")],
        pattern: None,
        regenerates: true,
        note: PNPM_STORE_NOTE,
        requires_tool: Some("pnpm"),
    };
    assert(r.locations@.map_values(|p: PathSpec| p.raw@) =~= rule_table()[5].locations);
    r
}

fn rule_yarn_cache() -> (r: CleanupRule)
    ensures
        facts(r) == rule_table()[6],
{
    let r = CleanupRule {
        id: "yarn-cache",
        label: "Yarn cache",
        category: Category::PackageCache,
        tier: SafetyTier::Safe,
        locations: vec![PathSpec::new("%LOCALAPPDATA%/Yarn/Cache")],
        pattern: None,
        regenerates: true,
        note: YARN_CACHE_NOTE,
        requires_tool: Some("yarn"),
    };
    assert(r.locations@.map_values(|p: PathSpec| p.raw@) =~= rule_table()[6].locations);
    r
}

fn rule_cargo_registry() -> (r: CleanupRule)
    ensures
        facts(r) == rule_table()[7],
{
    let r = CleanupRule {
        id: "cargo-registry",
        label: "Cargo registry cache",
        category: Category::PackageCache,
        tier: SafetyTier::Safe,
        locations: vec![PathSpec::new("%USERPROFILE%/.cargo/registry/cache"), PathSpec::new("%USERPROFILE%/.cargo/registry/src")],
        pattern: None,
        regenerates: true,
        note: CARGO_REGISTRY_NOTE,
        requires_tool: Some("cargo"),
    };
    assert(r.locations@.map_values(|p: PathSpec| p.raw@) =~= rule_table()[7].locations);
    r
}

fn rule_pip_cache() -> (r: CleanupRule)
    ensures
        facts(r) == rule_table()[8],
{
    let r = CleanupRule {
        id: "pip-cache",
        label: "pip download cache",
        category: Category::PackageCache,
        tier: SafetyTier::Safe,
        locations: vec![PathSpec::new("%LOCALAPPDATA%/pip/cache")],
        pattern: None,
        regenerates: true,
        note: PIP_CACHE_NOTE,
        requires_tool: Some("pip"),
    };
    assert(r.locations@.map_values(|p: PathSpec| p.raw@) =~= rule_table()[8].locations);
    r
}

fn rule_go_cache() -> (r: CleanupRule)
    ensures
        facts(r) == rule_table()[9],
{
    let r = CleanupRule {
        id: "go-cache",
        label: "Go build & module cache",
        category: Category::PackageCache,
        tier: SafetyTier::Safe,
        locations: vec![PathSpec::new("%LOCALAPPDATA%/go-build"), PathSpec::new("%USERPROFILE%/go/pkg/mod/cache")],
        pattern: None,
        regenerates: true,
        note: GO_CACHE_NOTE,
        requires_tool: Some("go"),
    };
    assert(r.locations@.map_values(|p: PathSpec| p.raw@) =~= rule_table()[9].locations);
    r
}

fn rule_playwright_browsers() -> (r: CleanupRule)
    ensures
        facts(r) == rule_table()[10],
{
    let r = CleanupRule {
        id: "playwright-browsers",
        label: "Playwright browsers",
        category: Category::Browser,
        tier: SafetyTier::Safe,
        locations: vec![PathSpec::new("%LOCALAPPDATA%/ms-playwright")],
        pattern: None,
        regenerates: true,
        note: PLAYWRIGHT_BROWSERS_NOTE,
        requires_tool: None,
    };
    assert(r.locations@.map_values(|p: PathSpec| p.raw@) =~= rule_table()[10].locations);
    r
}

fn rule_windows_temp() -> (r: CleanupRule)
    ensures
        facts(r) == rule_table()[11],
{
    let r = CleanupRule {
        id: "windows-temp",
        label: "User temp files",
        category: Category::Temp,
        tier: SafetyTier::Safe,
        locations: vec![PathSpec::new("%LOCALAPPDATA%/Temp")],
        pattern: None,
        regenerates: true,
        note: WINDOWS_TEMP_NOTE,
        requires_tool: None,
    };
    assert(r.locations@.map_values(|p: PathSpec| p.raw@) =~= rule_table()[11].locations);
    r
}

fn rule_editor_state_vscdb() -> (r: CleanupRule)
    ensures
        facts(r) == rule_table()[12],
{
    let r = CleanupRule {
        id: "editor-state-vscdb",
        label: "Editor UI state database",
        category: Category::EditorStorage,
        tier: SafetyTier::Caution,
        locations: vec![PathSpec::new("%APPDATA%/Code/User/globalStorage/state.vscdb"), PathSpec::new("%APPDATA%/Code/User/globalStorage/state.vscdb.backup"), PathSpec::new("%APPDATA%/Cursor/User/globalStorage/state.vscdb"), PathSpec::new("%APPDATA%/Cursor/User/globalStorage/state.vscdb.backup"), PathSpec::new("%APPDATA%/Windsurf/User/globalStorage/state.vscdb"), PathSpec::new("%APPDATA%/Windsurf/User/globalStorage/state.vscdb.backup"), PathSpec::new("%APPDATA%/Trae/User/globalStorage/state.vscdb"), PathSpec::new("%APPDATA%/Trae/User/globalStorage/state.vscdb.backup"), PathSpec::new("%APPDATA%/VSCodium/User/globalStorage/state.vscdb"), PathSpec::new("%APPDATA%/VSCodium/User/globalStorage/state.vscdb.backup")],
        pattern: None,
        regenerates: true,
        note: EDITOR_STATE_VSCDB_NOTE,
        requires_tool: None,
    };
    assert(r.locations@.map_values(|p: PathSpec| p.raw@) =~= rule_table()[12].locations);
    r
}

fn rule_editor_workspace_storage() -> (r: CleanupRule)
    ensures
        facts(r) == rule_table()[13],
{
    let r = CleanupRule {
        id: "editor-workspace-storage",
        label: "Editor workspace storage",
        category: Category::EditorStorage,
        tier: SafetyTier::Review,
        locations: vec![PathSpec::new("%APPDATA%/Code/User/workspaceStorage"), PathSpec::new("%APPDATA%/Cursor/User/workspaceStorage"), PathSpec::new("%APPDATA%/Windsurf/User/workspaceStorage"), PathSpec::new("%APPDATA%/Trae/User/workspaceStorage"), PathSpec::new("%APPDATA%/VSCodium/User/workspaceStorage")],
        pattern: None,
        regenerates: true,
        note: EDITOR_WORKSPACE_STORAGE_NOTE,
        requires_tool: None,
    };
    assert(r.locations@.map_values(|p: PathSpec| p.raw@) =~= rule_table()[13].locations);
    r
}

fn rule_jetbrains_caches() -> (r: CleanupRule)
    ensures
        facts(r) == rule_table()[14],
{
    let r = CleanupRule {
        id: "jetbrains-caches",
        label: "JetBrains IDE caches",
        category: Category::EditorStorage,
        tier: SafetyTier::Review,
        locations: vec![PathSpec::new("%LOCALAPPDATA%/JetBrains")],
        pattern: None,
        regenerates: true,
        note: JETBRAINS_CACHES_NOTE,
        requires_tool: None,
    };
    assert(r.locations@.map_values(|p: PathSpec| p.raw@) =~= rule_table()[14].locations);
    r
}

fn rule_lmstudio_models() -> (r: CleanupRule)
    ensures
        facts(r) == rule_table()[15],
{
    let r = CleanupRule {
        id: "lmstudio-models",
        label: "LM Studio models",
        category: Category::Model,
        tier: SafetyTier::Caution,
        locations: vec![PathSpec::new("%USERPROFILE%/.lmstudio"), PathSpec::new("%USERPROFILE%/.cache/lm-studio")],
        pattern: None,
        regenerates: false,
        note: LMSTUDIO_MODELS_NOTE,
        requires_tool: None,
    };
    assert(r.locations@.map_values(|p: PathSpec| p.raw@) =~= rule_table()[15].locations);
    r
}

fn rule_huggingface_cache() -> (r: CleanupRule)
    ensures
        facts(r) == rule_table()[16],
{
    let r = CleanupRule {
        id: "huggingface-cache",
        label: "Hugging Face model cache",
        category: Category::Model,
        tier: SafetyTier::Caution,
        locations: vec![PathSpec::new("%USERPROFILE%/.cache/huggingface"), PathSpec::new("%USERPROFILE%/.cache/torch")],
        pattern: None,
        regenerates: false,
        note: HUGGINGFACE_CACHE_NOTE,
        requires_tool: None,
    };
    assert(r.locations@.map_values(|p: PathSpec| p.raw@) =~= rule_table()[16].locations);
    r
}

fn rule_node_modules() -> (r: CleanupRule)
    ensures
        facts(r) == rule_table()[17],
{
    let r = CleanupRule {
        id: "node-modules",
        label: "node_modules folders",
        category: Category::BuildArtifact,
        tier: SafetyTier::Review,
        locations: Vec::new(),
        pattern: Some(DirPattern { names: &["node_modules"] }),
        regenerates: true,
        note: NODE_MODULES_NOTE,
        requires_tool: None,
    };
    assert(r.locations@.map_values(|p: PathSpec| p.raw@) =~= rule_table()[17].locations);
    assert(pattern_names(r.pattern.unwrap()) =~= rule_table()[17].pattern.unwrap());
    r
}

fn rule_build_dirs() -> (r: CleanupRule)
    ensures
        facts(r) == rule_table()[18],
{
    let r = CleanupRule {
        id: "build-dirs",
        label: "Build output folders",
        category: Category::BuildArtifact,
        tier: SafetyTier::Review,
        locations: Vec::new(),
        pattern: Some(DirPattern { names: &["target", "build", ".next", "dist", ".dart_tool", ".turbo", ".parcel-cache", ".svelte-kit", ".nuxt", "__pycache__", ".pytest_cache", ".mypy_cache"] }),
        regenerates: true,
        note: BUILD_DIRS_NOTE,
        requires_tool: None,
    };
    assert(r.locations@.map_values(|p: PathSpec| p.raw@) =~= rule_table()[18].locations);
    assert(pattern_names(r.pattern.unwrap()) =~= rule_table()[18].pattern.unwrap());
    r
}

/// The full seed rule set, in table order.
pub fn all_rules() -> (r: Vec<CleanupRule>)
    ensures
        r@.len() == rule_table().len(),
        forall|i: int| 0 <= i < r@.len() ==> facts(#[trigger] r@[i]) == rule_table()[i],
{
    let mut v: Vec<CleanupRule> = Vec::new();
    v.push(rule_uv_cache());
    v.push(rule_npm_cache());
    v.push(rule_gradle_caches());
    v.push(rule_bun_cache());
    v.push(rule_dart_pub_cache());
    v.push(rule_pnpm_store());
    v.push(rule_yarn_cache());
    v.push(rule_cargo_registry());
    v.push(rule_pip_cache());
    v.push(rule_go_cache());
    v.push(rule_playwright_browsers());
    v.push(rule_windows_temp());
    v.push(rule_editor_state_vscdb());
    v.push(rule_editor_workspace_storage());
    v.push(rule_jetbrains_caches());
    v.push(rule_lmstudio_models());
    v.push(rule_huggingface_cache());
    v.push(rule_node_modules());
    v.push(rule_build_dirs());
    v
}

/// Table-wide promises: a rule is either a fixed-location rule or a pattern
/// rule, never both; whatever does not regenerate is `Caution` (user data);
/// pattern rules are never gated on a tool; and no two rules share an id.
pub proof fn law_rule_table_shape()
    ensures
        forall|i: int| 0 <= i < rule_table().len() ==> (#[trigger] rule_table()[i].pattern is Some
            <==> rule_table()[i].locations.len() == 0),
        forall|i: int| 0 <= i < rule_table().len() ==> !(#[trigger] rule_table()[i].regenerates)
            ==> rule_table()[i].tier == SafetyTier::Caution,
        forall|i: int| 0 <= i < rule_table().len() ==> (#[trigger] rule_table()[i].pattern is Some)
            ==> rule_table()[i].requires_tool is None,
        forall|i: int, j: int| 0 <= i < j < rule_table().len() ==> #[trigger] rule_table()[i].id
            != #[trigger] rule_table()[j].id,
{
    reveal_strlit("uv-cache");
    reveal_strlit("npm-cache");
    reveal_strlit("gradle-caches");
    reveal_strlit("bun-cache");
    reveal_strlit("dart-pub-cache");
    reveal_strlit("pnpm-store");
    reveal_strlit("yarn-cache");
    reveal_strlit("cargo-registry");
    reveal_strlit("pip-cache");
    reveal_strlit("go-cache");
    reveal_strlit("playwright-browsers");
    reveal_strlit("windows-temp");
    reveal_strlit("editor-state-vscdb");
    reveal_strlit("editor-workspace-storage");
    reveal_strlit("jetbrains-caches");
    reveal_strlit("lmstudio-models");
    reveal_strlit("huggingface-cache");
    reveal_strlit("node-modules");
    reveal_strlit("build-dirs");
    let t = rule_table();
    assert forall|i: int, j: int| 0 <= i < j < t.len() implies #[trigger] t[i].id != #[trigger] t[j].id by {
        if t[i].id == t[j].id {
            assert(t[i].id.len() == t[j].id.len());
            assert(t[i].id[0] == t[j].id[0]);
        }
    }
}

/// More table-wide promises: no rule takes the id reserved for generic
/// large folders; whatever is `Safe` regenerates; downloaded models are
/// `Caution` and never regenerate; every tool a rule waits for is one the
/// tool probe knows; no directory name belongs to two pattern rules; and
/// `node_modules` is a build artifact to review.
pub proof fn law_rule_table_promises()
    ensures
        forall|i: int| 0 <= i < rule_table().len() ==> (#[trigger] rule_table()[i]).id != "large-folder"@,
        forall|i: int| 0 <= i < rule_table().len() ==> (#[trigger] rule_table()[i]).tier == SafetyTier::Safe
            ==> rule_table()[i].regenerates,
        forall|i: int| 0 <= i < rule_table().len() ==> (#[trigger] rule_table()[i]).category == Category::Model
            ==> rule_table()[i].tier == SafetyTier::Caution && !rule_table()[i].regenerates,
        forall|i: int| 0 <= i < rule_table().len() ==> ((#[trigger] rule_table()[i]).requires_tool matches Some(t)
            ==> exists|k: int| 0 <= k < tool_table().len() && #[trigger] tool_table()[k].id == t),
        forall|i: int, j: int, a: int, b: int|
            #![trigger rule_table()[i].pattern.unwrap()[a], rule_table()[j].pattern.unwrap()[b]]
            0 <= i < j < rule_table().len() && rule_table()[i].pattern is Some && rule_table()[j].pattern is Some
                && 0 <= a < rule_table()[i].pattern.unwrap().len() && 0 <= b < rule_table()[j].pattern.unwrap().len()
                ==> rule_table()[i].pattern.unwrap()[a] != rule_table()[j].pattern.unwrap()[b],
        rule_table()[17].id == "node-modules"@ && rule_table()[17].category == Category::BuildArtifact
            && rule_table()[17].tier == SafetyTier::Review,
{
    reveal_strlit("large-folder");
    reveal_strlit("uv-cache");
    reveal_strlit("npm-cache");
    reveal_strlit("gradle-caches");
    reveal_strlit("bun-cache");
    reveal_strlit("dart-pub-cache");
    reveal_strlit("pnpm-store");
    reveal_strlit("yarn-cache");
    reveal_strlit("cargo-registry");
    reveal_strlit("pip-cache");
    reveal_strlit("go-cache");
    reveal_strlit("playwright-browsers");
    reveal_strlit("windows-temp");
    reveal_strlit("editor-state-vscdb");
    reveal_strlit("editor-workspace-storage");
    reveal_strlit("jetbrains-caches");
    reveal_strlit("lmstudio-models");
    reveal_strlit("huggingface-cache");
    reveal_strlit("node-modules");
    reveal_strlit("build-dirs");
    reveal_strlit("node_modules");
    reveal_strlit("target");
    reveal_strlit("build");
    reveal_strlit(".next");
    reveal_strlit("dist");
    reveal_strlit(".dart_tool");
    reveal_strlit(".turbo");
    reveal_strlit(".parcel-cache");
    reveal_strlit(".svelte-kit");
    reveal_strlit(".nuxt");
    reveal_strlit("__pycache__");
    reveal_strlit(".pytest_cache");
    reveal_strlit(".mypy_cache");
    let t = rule_table();
    let tools = tool_table();
    assert forall|i: int| 0 <= i < t.len() implies (#[trigger] t[i]).id != "large-folder"@ by {
        if t[i].id == "large-folder"@ {
            assert(t[i].id.len() == "large-folder"@.len());
            assert(t[i].id[0] == "large-folder"@[0]);
        }
    }
    assert forall|i: int| 0 <= i < t.len() implies ((#[trigger] t[i]).requires_tool matches Some(n)
        ==> exists|k: int| 0 <= k < tools.len() && #[trigger] tools[k].id == n) by {
        if i == 0 {
            assert(tools[0].id == "uv"@);
        } else if i == 1 {
            assert(tools[1].id == "npm"@);
        } else if i == 2 {
            assert(tools[6].id == "gradle"@);
        } else if i == 3 {
            assert(tools[5].id == "bun"@);
        } else if i == 4 {
            assert(tools[11].id == "dart"@);
        } else if i == 5 {
            assert(tools[2].id == "pnpm"@);
        } else if i == 6 {
            assert(tools[3].id == "yarn"@);
        } else if i == 7 {
            assert(tools[7].id == "cargo"@);
        } else if i == 8 {
            assert(tools[10].id == "pip"@);
        } else if i == 9 {
            assert(tools[8].id == "go"@);
        }
    }
    assert forall|i: int, j: int, a: int, b: int|
        #![trigger t[i].pattern.unwrap()[a], t[j].pattern.unwrap()[b]]
        0 <= i < j < t.len() && t[i].pattern is Some && t[j].pattern is Some && 0 <= a < t[i].pattern.unwrap().len()
            && 0 <= b < t[j].pattern.unwrap().len() implies t[i].pattern.unwrap()[a] != t[j].pattern.unwrap()[b] by {
        assert(i == 17 && j == 18);
        let pi = t[i].pattern.unwrap();
        let pj = t[j].pattern.unwrap();
        assert(a == 0);
        assert(pi[0] == "node_modules"@);
        assert(pj[b].len() != 12);
    }
}

} // verus!
