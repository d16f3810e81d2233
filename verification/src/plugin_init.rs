//! `outl plugin init`: the files a new plugin project starts with.

use vstd::prelude::*;

use crate::text::{chars_of, push_chars, string_from_str};

verus! {

fn push_str(r: &mut String, s: &str)
    ensures
        final(r)@ == old(r)@ + s@,
{
    let c = chars_of(s);
    push_chars(r, c.as_slice());
}

pub const PLUGIN_JSON_0: &'static str = r#"{
  "$schema": "https://outl.app/schemas/plugin-v1.json",
  "id": ""#;
pub const PLUGIN_JSON_1: &'static str = r#"",
  "name": ""#;
pub const PLUGIN_JSON_2: &'static str = r#"",
  "version": "0.1.0",
  "api": "^1.0",
  "engines": {
    "outl": ">=0.7.0"
  },
  "main": "index.js",
  "description": "A new outl plugin.",
  "author": "you <you@example.com>",
  "license": "MIT",
  "category": "misc",
  "capabilities": [
    "slash-command"
  ],
  "permissions": [],
  "contributes": {
    "commands": [
      {
        "id": "hello",
        "title": ""#;
pub const PLUGIN_JSON_3: &'static str = r#": say hello"
      }
    ]
  }
}
"#;

/// The plugin manifest: id and display name, one `hello` command.
pub fn plugin_json(id: &str, name: &str) -> (r: String)
    ensures
        r@ == PLUGIN_JSON_0@ + id@ + PLUGIN_JSON_1@ + name@ + PLUGIN_JSON_2@ + name@ + PLUGIN_JSON_3@,
{
    let mut r = string_from_str(PLUGIN_JSON_0);
    push_str(&mut r, id);
    push_str(&mut r, PLUGIN_JSON_1);
    push_str(&mut r, name);
    push_str(&mut r, PLUGIN_JSON_2);
    push_str(&mut r, name);
    push_str(&mut r, PLUGIN_JSON_3);
    r
}

pub const PACKAGE_JSON_0: &'static str = r#"{
  "name": "outl-"#;
pub const PACKAGE_JSON_1: &'static str = r#"",
  "version": "0.1.0",
  "description": "An outl plugin.",
  "license": "MIT",
  "private": true,
  "type": "module",
  "scripts": {
    "build": "esbuild src/index.ts --bundle --format=iife --platform=neutral --target=es2022 --outfile=index.js",
    "typecheck": "tsc --noEmit"
  },
  "dependencies": {
    "@outl/plugin-sdk": "^1.0.0"
  },
  "devDependencies": {
    "esbuild": "^0.24.0",
    "typescript": "^6.0.3"
  }
}
"#;

/// The `package.json` that builds the bundle with esbuild.
pub fn package_json(slug: &str) -> (r: String)
    ensures
        r@ == PACKAGE_JSON_0@ + slug@ + PACKAGE_JSON_1@,
{
    let mut r = string_from_str(PACKAGE_JSON_0);
    push_str(&mut r, slug);
    push_str(&mut r, PACKAGE_JSON_1);
    r
}

pub const INDEX_TS_0: &'static str = r#"/**
 * "#;
pub const INDEX_TS_1: &'static str = r#" — an outl plugin.
 *
 * Starter scaffold: a single `hello` slash command that toasts a message.
 * Grow it by adding capabilities to `plugin.json` and wiring them here —
 * see https://github.com/outlmd/outl/blob/main/docs/plugin-api.md
 */

import { definePlugin, type PluginContext } from "@outl/plugin-sdk";

export default definePlugin({
  activate(ctx: PluginContext) {
    ctx.commands.register("hello", () => {
      ctx.ui.notify("👋 Hello from "#;
pub const INDEX_TS_2: &'static str = r#"!");
    });
  },
});
"#;

/// The starter `src/index.ts`: a `hello` command that toasts.
pub fn index_ts(name: &str) -> (r: String)
    ensures
        r@ == INDEX_TS_0@ + name@ + INDEX_TS_1@ + name@ + INDEX_TS_2@,
{
    let mut r = string_from_str(INDEX_TS_0);
    push_str(&mut r, name);
    push_str(&mut r, INDEX_TS_1);
    push_str(&mut r, name);
    push_str(&mut r, INDEX_TS_2);
    r
}

pub const README_0: &'static str = r#"# "#;
pub const README_1: &'static str = r#"

An [outl](https://github.com/outlmd/outl) plugin (`"#;
pub const README_2: &'static str = r#"`).

## Build

```sh
bun install        # or npm install
bun run build      # bundles src/index.ts → index.js
```

## Try it

```sh
outl plugin install ./"#;
pub const README_3: &'static str = r#"      # installs into the current workspace
outl plugin run "#;
pub const README_4: &'static str = r#" hello
```

In the TUI / desktop, type `/hello` in a block.

## Develop

Edit `src/index.ts`, rebuild, and reinstall (or drop the folder in
`<workspace>/.outl/plugins/_dev/"#;
pub const README_5: &'static str = r#"/` to skip the hash check while iterating).
The full host API — `ctx.blocks`, `ctx.ops.onOp`, `ctx.content.register`,
`ctx.net.fetch`, `ctx.storage`, … — is documented at
<https://github.com/outlmd/outl/blob/main/docs/plugin-api.md>.
"#;

/// The README; `slug` is the directory name the project was made in.
pub fn readme(name: &str, id: &str, slug: &str) -> (r: String)
    ensures
        r@ == README_0@ + name@ + README_1@ + id@ + README_2@ + slug@ + README_3@ + id@ + README_4@ + slug@ + README_5@,
{
    let mut r = string_from_str(README_0);
    push_str(&mut r, name);
    push_str(&mut r, README_1);
    push_str(&mut r, id);
    push_str(&mut r, README_2);
    push_str(&mut r, slug);
    push_str(&mut r, README_3);
    push_str(&mut r, id);
    push_str(&mut r, README_4);
    push_str(&mut r, slug);
    push_str(&mut r, README_5);
    r
}

/// The TypeScript compiler settings every scaffold ships.
pub const TSCONFIG: &'static str = r#"{
  "compilerOptions": {
    "target": "ES2022",
    "module": "ESNext",
    "lib": ["ES2022", "DOM"],
    "moduleResolution": "bundler",
    "skipLibCheck": true,
    "isolatedModules": true,
    "esModuleInterop": true,
    "forceConsistentCasingInFileNames": true,
    "noEmit": true,

    "strict": true,
    "noUnusedLocals": true,
    "noUnusedParameters": true,
    "noFallthroughCasesInSwitch": true
  },
  "include": ["src"]
}
"#;

/// The `.gitignore` every scaffold ships.
pub const GITIGNORE: &'static str = "node_modules/\n*.log\n";

} // verus!
