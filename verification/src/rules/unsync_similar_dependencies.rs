//! Packages of one ecosystem family should move in lockstep.

use vstd::prelude::*;
use crate::rules::{Issue, IssueLevel};
use crate::strutil::{spec_join, join_strings, str_eq};
use crate::version::SemVersion;

verus! {

/// A known ecosystem family whose member packages are expected to share one
/// version.
#[derive(Debug, Clone, Copy, PartialEq, Eq, Hash, Structural)]
pub enum SimilarDependency {
    Trpc,
    React,
    NextJS,
    Storybook,
    Turborepo,
    TanstackQuery,
    Prisma,
    TypescriptEslint,
    EslintStylistic,
    Playwright,
}

/// The family a dependency name belongs to, if any: the fixed lookup table
/// of known ecosystem packages.
pub open spec fn spec_family_of(s: Seq<char>) -> Option<SimilarDependency> {
    if s == "@trpc/client"@ || s == "@trpc/server"@ || s == "@trpc/next"@ || s == "@trpc/react-query"@ {
        Some(SimilarDependency::Trpc)
    } else if s == "react"@ || s == "react-dom"@ {
        Some(SimilarDependency::React)
    } else if s == "eslint-config-next"@
        || s == "@next/eslint-plugin-next"@
        || s == "@next/font"@
        || s == "@next/bundle-analyzer"@
        || s == "@next/mdx"@
        || s == "next"@
        || s == "@next/third-parties"@ {
        Some(SimilarDependency::NextJS)
    } else if s == "eslint-config-turbo"@
        || s == "eslint-plugin-turbo"@
        || s == "@turbo/gen"@
        || s == "turbo-ignore"@
        || s == "turbo"@ {
        Some(SimilarDependency::Turborepo)
    } else if s == "sb"@
        || s == "storybook"@
        || s == "@storybook/codemod"@
        || s == "@storybook/cli"@
        || s == "@storybook/channels"@
        || s == "@storybook/addon-actions"@
        || s == "@storybook/addon-links"@
        || s == "@storybook/react"@
        || s == "@storybook/react-native"@
        || s == "@storybook/components"@
        || s == "@storybook/addon-backgrounds"@
        || s == "@storybook/addon-viewport"@
        || s == "@storybook/angular"@
        || s == "@storybook/addon-a11y"@
        || s == "@storybook/addon-jest"@
        || s == "@storybook/client-logger"@
        || s == "@storybook/node-logger"@
        || s == "@storybook/core"@
        || s == "@storybook/addon-storysource"@
        || s == "@storybook/html"@
        || s == "@storybook/core-events"@
        || s == "@storybook/svelte"@
        || s == "@storybook/ember"@
        || s == "@storybook/addon-ondevice-backgrounds"@
        || s == "@storybook/addon-ondevice-notes"@
        || s == "@storybook/preact"@
        || s == "@storybook/theming"@
        || s == "@storybook/router"@
        || s == "@storybook/addon-docs"@
        || s == "@storybook/addon-ondevice-actions"@
        || s == "@storybook/source-loader"@
        || s == "@storybook/preset-create-react-app"@
        || s == "@storybook/web-components"@
        || s == "@storybook/addon-essentials"@
        || s == "@storybook/server"@
        || s == "@storybook/addon-toolbars"@
        || s == "@storybook/addon-controls"@
        || s == "@storybook/core-common"@
        || s == "@storybook/builder-webpack5"@
        || s == "@storybook/core-server"@
        || s == "@storybook/csf-tools"@
        || s == "@storybook/addon-measure"@
        || s == "@storybook/addon-outline"@
        || s == "@storybook/addon-ondevice-controls"@
        || s == "@storybook/instrumenter"@
        || s == "@storybook/addon-interactions"@
        || s == "@storybook/docs-tools"@
        || s == "@storybook/builder-vite"@
        || s == "@storybook/telemetry"@
        || s == "@storybook/core-webpack"@
        || s == "@storybook/preset-html-webpack"@
        || s == "@storybook/preset-preact-webpack"@
        || s == "@storybook/preset-svelte-webpack"@
        || s == "@storybook/preset-react-webpack"@
        || s == "@storybook/html-webpack5"@
        || s == "@storybook/preact-webpack5"@
        || s == "@storybook/svelte-webpack5"@
        || s == "@storybook/web-components-webpack5"@
        || s == "@storybook/preset-server-webpack"@
        || s == "@storybook/react-webpack5"@
        || s == "@storybook/server-webpack5"@
        || s == "@storybook/addon-highlight"@
        || s == "@storybook/blocks"@
        || s == "@storybook/builder-manager"@
        || s == "@storybook/react-vite"@
        || s == "@storybook/svelte-vite"@
        || s == "@storybook/web-components-vite"@
        || s == "@storybook/nextjs"@
        || s == "@storybook/types"@
        || s == "@storybook/manager"@
        || s == "@storybook/csf-plugin"@
        || s == "@storybook/preview"@
        || s == "@storybook/manager-api"@
        || s == "@storybook/preview-api"@
        || s == "@storybook/html-vite"@
        || s == "@storybook/sveltekit"@
        || s == "@storybook/preact-vite"@
        || s == "@storybook/addon-mdx-gfm"@
        || s == "@storybook/react-dom-shim"@
        || s == "create-storybook"@
        || s == "@storybook/addon-onboarding"@
        || s == "@storybook/react-native-theming"@
        || s == "@storybook/addon-themes"@
        || s == "@storybook/test"@
        || s == "@storybook/react-native-ui"@
        || s == "@storybook/experimental-nextjs-vite"@
        || s == "@storybook/experimental-addon-test"@
        || s == "@storybook/react-native-web-vite"@ {
        Some(SimilarDependency::Storybook)
    } else if s == "@tanstack/eslint-plugin-query"@
        || s == "@tanstack/query-async-storage-persister"@
        || s == "@tanstack/query-broadcast-client-experimental"@
        || s == "@tanstack/query-core"@
        || s == "@tanstack/query-devtools"@
        || s == "@tanstack/query-persist-client-core"@
        || s == "@tanstack/query-sync-storage-persister"@
        || s == "@tanstack/react-query"@
        || s == "@tanstack/react-query-devtools"@
        || s == "@tanstack/react-query-persist-client"@
        || s == "@tanstack/react-query-next-experimental"@
        || s == "@tanstack/solid-query"@
        || s == "@tanstack/solid-query-devtools"@
        || s == "@tanstack/solid-query-persist-client"@
        || s == "@tanstack/svelte-query"@
        || s == "@tanstack/svelte-query-devtools"@
        || s == "@tanstack/svelte-query-persist-client"@
        || s == "@tanstack/vue-query"@
        || s == "@tanstack/vue-query-devtools"@
        || s == "@tanstack/angular-query-devtools-experimental"@
        || s == "@tanstack/angular-query-experimental"@ {
        Some(SimilarDependency::TanstackQuery)
    } else if s == "prisma"@
        || s == "@prisma/client"@
        || s == "@prisma/instrumentation"@
        || s == "@prisma/adapter-pg"@
        || s == "@prisma/adapter-neon"@
        || s == "@prisma/adapter-planetscale"@
        || s == "@prisma/adapter-d1"@
        || s == "@prisma/adapter-libsql"@
        || s == "@prisma/adapter-pg-worker"@
        || s == "@prisma/pg-worker"@ {
        Some(SimilarDependency::Prisma)
    } else if s == "typescript-eslint"@
        || s == "@typescript-eslint/eslint-plugin"@
        || s == "@typescript-eslint/parser"@ {
        Some(SimilarDependency::TypescriptEslint)
    } else if s == "@stylistic/eslint-plugin-js"@
        || s == "@stylistic/eslint-plugin-ts"@
        || s == "@stylistic/eslint-plugin-migrate"@
        || s == "@stylistic/eslint-plugin"@
        || s == "@stylistic/eslint-plugin-jsx"@
        || s == "@stylistic/eslint-plugin-plus"@ {
        Some(SimilarDependency::EslintStylistic)
    } else if s == "playwright"@ || s == "@playwright/test"@ {
        Some(SimilarDependency::Playwright)
    } else {
        None
    }
}

impl SimilarDependency {
    /// The family's display name.
    pub open spec fn spec_display(&self) -> Seq<char> {
        match self {
            SimilarDependency::Trpc => "tRPC"@,
            SimilarDependency::React => "React"@,
            SimilarDependency::NextJS => "Next.js"@,
            SimilarDependency::Storybook => "Storybook"@,
            SimilarDependency::Turborepo => "Turborepo"@,
            SimilarDependency::TanstackQuery => "Tanstack Query"@,
            SimilarDependency::Prisma => "Prisma"@,
            SimilarDependency::TypescriptEslint => "typescript-eslint"@,
            SimilarDependency::EslintStylistic => "ESLint Stylistic"@,
            SimilarDependency::Playwright => "Playwright"@,
        }
    }

    /// The family's display name.
    pub fn display_name(&self) -> (r: &'static str)
        ensures
            r@ == self.spec_display(),
    {
        match self {
            SimilarDependency::Trpc => "tRPC",
            SimilarDependency::React => "React",
            SimilarDependency::NextJS => "Next.js",
            SimilarDependency::Storybook => "Storybook",
            SimilarDependency::Turborepo => "Turborepo",
            SimilarDependency::TanstackQuery => "Tanstack Query",
            SimilarDependency::Prisma => "Prisma",
            SimilarDependency::TypescriptEslint => "typescript-eslint",
            SimilarDependency::EslintStylistic => "ESLint Stylistic",
            SimilarDependency::Playwright => "Playwright",
        }
    }

    /// Looks a dependency name up in the fixed family table.
    pub fn try_from(value: &str) -> (r: Option<SimilarDependency>)
        ensures
            r == spec_family_of(value@),
    {
        if str_eq(value, "@trpc/client")
            || str_eq(value, "@trpc/server")
            || str_eq(value, "@trpc/next")
            || str_eq(value, "@trpc/react-query") {
            Some(SimilarDependency::Trpc)
        } else if str_eq(value, "react") || str_eq(value, "react-dom") {
            Some(SimilarDependency::React)
        } else if str_eq(value, "eslint-config-next")
            || str_eq(value, "@next/eslint-plugin-next")
            || str_eq(value, "@next/font")
            || str_eq(value, "@next/bundle-analyzer")
            || str_eq(value, "@next/mdx")
            || str_eq(value, "next")
            || str_eq(value, "@next/third-parties") {
            Some(SimilarDependency::NextJS)
        } else if str_eq(value, "eslint-config-turbo")
            || str_eq(value, "eslint-plugin-turbo")
            || str_eq(value, "@turbo/gen")
            || str_eq(value, "turbo-ignore")
            || str_eq(value, "turbo") {
            Some(SimilarDependency::Turborepo)
        } else if str_eq(value, "sb")
            || str_eq(value, "storybook")
            || str_eq(value, "@storybook/codemod")
            || str_eq(value, "@storybook/cli")
            || str_eq(value, "@storybook/channels")
            || str_eq(value, "@storybook/addon-actions")
            || str_eq(value, "@storybook/addon-links")
            || str_eq(value, "@storybook/react")
            || str_eq(value, "@storybook/react-native")
            || str_eq(value, "@storybook/components")
            || str_eq(value, "@storybook/addon-backgrounds")
            || str_eq(value, "@storybook/addon-viewport")
            || str_eq(value, "@storybook/angular")
            || str_eq(value, "@storybook/addon-a11y")
            || str_eq(value, "@storybook/addon-jest")
            || str_eq(value, "@storybook/client-logger")
            || str_eq(value, "@storybook/node-logger")
            || str_eq(value, "@storybook/core")
            || str_eq(value, "@storybook/addon-storysource")
            || str_eq(value, "@storybook/html")
            || str_eq(value, "@storybook/core-events")
            || str_eq(value, "@storybook/svelte")
            || str_eq(value, "@storybook/ember")
            || str_eq(value, "@storybook/addon-ondevice-backgrounds")
            || str_eq(value, "@storybook/addon-ondevice-notes")
            || str_eq(value, "@storybook/preact")
            || str_eq(value, "@storybook/theming")
            || str_eq(value, "@storybook/router")
            || str_eq(value, "@storybook/addon-docs")
            || str_eq(value, "@storybook/addon-ondevice-actions")
            || str_eq(value, "@storybook/source-loader")
            || str_eq(value, "@storybook/preset-create-react-app")
            || str_eq(value, "@storybook/web-components")
            || str_eq(value, "@storybook/addon-essentials")
            || str_eq(value, "@storybook/server")
            || str_eq(value, "@storybook/addon-toolbars")
            || str_eq(value, "@storybook/addon-controls")
            || str_eq(value, "@storybook/core-common")
            || str_eq(value, "@storybook/builder-webpack5")
            || str_eq(value, "@storybook/core-server")
            || str_eq(value, "@storybook/csf-tools")
            || str_eq(value, "@storybook/addon-measure")
            || str_eq(value, "@storybook/addon-outline")
            || str_eq(value, "@storybook/addon-ondevice-controls")
            || str_eq(value, "@storybook/instrumenter")
            || str_eq(value, "@storybook/addon-interactions")
            || str_eq(value, "@storybook/docs-tools")
            || str_eq(value, "@storybook/builder-vite")
            || str_eq(value, "@storybook/telemetry")
            || str_eq(value, "@storybook/core-webpack")
            || str_eq(value, "@storybook/preset-html-webpack")
            || str_eq(value, "@storybook/preset-preact-webpack")
            || str_eq(value, "@storybook/preset-svelte-webpack")
            || str_eq(value, "@storybook/preset-react-webpack")
            || str_eq(value, "@storybook/html-webpack5")
            || str_eq(value, "@storybook/preact-webpack5")
            || str_eq(value, "@storybook/svelte-webpack5")
            || str_eq(value, "@storybook/web-components-webpack5")
            || str_eq(value, "@storybook/preset-server-webpack")
            || str_eq(value, "@storybook/react-webpack5")
            || str_eq(value, "@storybook/server-webpack5")
            || str_eq(value, "@storybook/addon-highlight")
            || str_eq(value, "@storybook/blocks")
            || str_eq(value, "@storybook/builder-manager")
            || str_eq(value, "@storybook/react-vite")
            || str_eq(value, "@storybook/svelte-vite")
            || str_eq(value, "@storybook/web-components-vite")
            || str_eq(value, "@storybook/nextjs")
            || str_eq(value, "@storybook/types")
            || str_eq(value, "@storybook/manager")
            || str_eq(value, "@storybook/csf-plugin")
            || str_eq(value, "@storybook/preview")
            || str_eq(value, "@storybook/manager-api")
            || str_eq(value, "@storybook/preview-api")
            || str_eq(value, "@storybook/html-vite")
            || str_eq(value, "@storybook/sveltekit")
            || str_eq(value, "@storybook/preact-vite")
            || str_eq(value, "@storybook/addon-mdx-gfm")
            || str_eq(value, "@storybook/react-dom-shim")
            || str_eq(value, "create-storybook")
            || str_eq(value, "@storybook/addon-onboarding")
            || str_eq(value, "@storybook/react-native-theming")
            || str_eq(value, "@storybook/addon-themes")
            || str_eq(value, "@storybook/test")
            || str_eq(value, "@storybook/react-native-ui")
            || str_eq(value, "@storybook/experimental-nextjs-vite")
            || str_eq(value, "@storybook/experimental-addon-test")
            || str_eq(value, "@storybook/react-native-web-vite") {
            Some(SimilarDependency::Storybook)
        } else if str_eq(value, "@tanstack/eslint-plugin-query")
            || str_eq(value, "@tanstack/query-async-storage-persister")
            || str_eq(value, "@tanstack/query-broadcast-client-experimental")
            || str_eq(value, "@tanstack/query-core")
            || str_eq(value, "@tanstack/query-devtools")
            || str_eq(value, "@tanstack/query-persist-client-core")
            || str_eq(value, "@tanstack/query-sync-storage-persister")
            || str_eq(value, "@tanstack/react-query")
            || str_eq(value, "@tanstack/react-query-devtools")
            || str_eq(value, "@tanstack/react-query-persist-client")
            || str_eq(value, "@tanstack/react-query-next-experimental")
            || str_eq(value, "@tanstack/solid-query")
            || str_eq(value, "@tanstack/solid-query-devtools")
            || str_eq(value, "@tanstack/solid-query-persist-client")
            || str_eq(value, "@tanstack/svelte-query")
            || str_eq(value, "@tanstack/svelte-query-devtools")
            || str_eq(value, "@tanstack/svelte-query-persist-client")
            || str_eq(value, "@tanstack/vue-query")
            || str_eq(value, "@tanstack/vue-query-devtools")
            || str_eq(value, "@tanstack/angular-query-devtools-experimental")
            || str_eq(value, "@tanstack/angular-query-experimental") {
            Some(SimilarDependency::TanstackQuery)
        } else if str_eq(value, "prisma")
            || str_eq(value, "@prisma/client")
            || str_eq(value, "@prisma/instrumentation")
            || str_eq(value, "@prisma/adapter-pg")
            || str_eq(value, "@prisma/adapter-neon")
            || str_eq(value, "@prisma/adapter-planetscale")
            || str_eq(value, "@prisma/adapter-d1")
            || str_eq(value, "@prisma/adapter-libsql")
            || str_eq(value, "@prisma/adapter-pg-worker")
            || str_eq(value, "@prisma/pg-worker") {
            Some(SimilarDependency::Prisma)
        } else if str_eq(value, "typescript-eslint")
            || str_eq(value, "@typescript-eslint/eslint-plugin")
            || str_eq(value, "@typescript-eslint/parser") {
            Some(SimilarDependency::TypescriptEslint)
        } else if str_eq(value, "@stylistic/eslint-plugin-js")
            || str_eq(value, "@stylistic/eslint-plugin-ts")
            || str_eq(value, "@stylistic/eslint-plugin-migrate")
            || str_eq(value, "@stylistic/eslint-plugin")
            || str_eq(value, "@stylistic/eslint-plugin-jsx")
            || str_eq(value, "@stylistic/eslint-plugin-plus") {
            Some(SimilarDependency::EslintStylistic)
        } else if str_eq(value, "playwright") || str_eq(value, "@playwright/test") {
            Some(SimilarDependency::Playwright)
        } else {
            None
        }
    }
}

/// One package declares several members of one ecosystem family with
/// diverging versions.
pub struct UnsyncSimilarDependenciesIssue {
    pub family: SimilarDependency,
    pub versions: Vec<(SemVersion, String)>,
    pub fixed: bool,
}

/// One entry line of the rendered message.
pub open spec fn spec_unsync_line(version: Seq<char>, dependency: Seq<char>) -> Seq<char> {
    "  ~      \""@ + dependency + "\": \""@ + version + "\""@
}

impl UnsyncSimilarDependenciesIssue {
    /// A freshly reported finding: the family, and the diverging
    /// version-to-member pairs seen in one manifest.
    pub fn new(family: SimilarDependency, versions: Vec<(SemVersion, String)>) -> (r:
        UnsyncSimilarDependenciesIssue)
        ensures
            r.family == family,
            r.versions == versions,
            !r.fixed,
    {
        UnsyncSimilarDependenciesIssue { family, versions, fixed: false }
    }

    /// The lines of the rendered message, one per entry.
    pub open spec fn spec_lines(&self) -> Seq<Seq<char>> {
        self.versions@.map_values(
            |pair: (SemVersion, String)| spec_unsync_line(pair.0.spec_rendered(), pair.1@),
        )
    }
}

impl Issue for UnsyncSimilarDependenciesIssue {
    open spec fn spec_name(&self) -> Seq<char> {
        "unsync-similar-dependencies"@
    }

    open spec fn spec_level(&self) -> IssueLevel {
        if self.fixed {
            IssueLevel::Fixed
        } else {
            IssueLevel::Error
        }
    }

    open spec fn spec_message(&self) -> Seq<char> {
        "  │ {\n  │   \"dependencies\": {\n"@ + spec_join(self.spec_lines(), ",\n"@)
            + "\n  │   }\n  │ }"@
    }

    open spec fn spec_why(&self) -> Seq<char> {
        "Similar "@ + self.family.spec_display() + " dependencies should use the same version."@
    }

    fn name(&self) -> (r: &'static str) {
        "unsync-similar-dependencies"
    }

    fn level(&self) -> (r: IssueLevel) {
        if self.fixed {
            IssueLevel::Fixed
        } else {
            IssueLevel::Error
        }
    }

    fn message(&self) -> (r: String) {
        let mut lines: Vec<String> = Vec::new();
        let mut i: usize = 0;
        while i < self.versions.len()
            invariant
                i <= self.versions@.len(),
                lines@.len() == i,
                forall|j: int| 0 <= j < i ==> (#[trigger] lines@[j])@ == self.spec_lines()[j],
            decreases self.versions@.len() - i,
        {
            let mut line = String::from_str("  ~      \"");
            line.append(self.versions[i].1.as_str());
            line.append("\": \"");
            line.append(self.versions[i].0.rendered().as_str());
            line.append("\"");
            lines.push(line);
            i = i + 1;
        }
        proof {
            let a = lines@.map_values(|p: String| p@);
            let b = self.spec_lines();
            assert forall|j: int| 0 <= j < a.len() implies a[j] == b[j] by {
                assert(a[j] == lines@[j]@);
            }
            assert(a =~= b);
        }
        let mut s = String::from_str("  │ {\n  │   \"dependencies\": {\n");
        let joined = join_strings(&lines, ",\n");
        s.append(joined.as_str());
        s.append("\n  │   }\n  │ }");
        s
    }

    fn why(&self) -> (r: String) {
        let mut s = String::from_str("Similar ");
        s.append(self.family.display_name());
        s.append(" dependencies should use the same version.");
        s
    }
}

} // verus!
