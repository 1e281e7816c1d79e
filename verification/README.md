# interface_lib

The core of a Minecraft launcher, written in Verus: every decision the launcher
makes about versions, Maven coordinates, Java runtimes, launch arguments,
classpaths, loader installation and instance state is an executable function
with a contract that Verus proves.

Layout:

- `src/` — the verified library.
  - `text`, `order`, `sorting` — character-level text operations, orders, and
    sorted lists without repetitions.
  - `version_parts`, `version_order` — version numbers, the Java a Minecraft
    version needs, and the laws of the version orders.
  - `java` — reading `java -version`, choosing and installing managed runtimes.
  - `maven`, `maven_session` — coordinates, repository layout, POM
    dependencies, the resolver, and a transitive resolution as a sequence of
    steps (the caller downloads, the session decides).
  - `version_file`, `inheritance`, `assets` — Mojang version JSON rules and
    arguments, a version file laid over its parent, the version manifest,
    asset objects.
  - `launch_args`, `launch_laws` — JVM and game arguments of a launch.
  - `classpath`, `classpath_laws` — classpath assembly.
  - `loaders` — Fabric, Quilt, Forge and NeoForge installation steps.
  - `preflight`, `instance_ops`, `optimize`, `payloads` — what the launcher's
    commands decide.
  - `model`, `auth`, `error`, `digest`, `platform` — instances, accounts,
    errors, checksums and the host platform.
- `tests/` — tests of the library.
- `app/` — the desktop side: files, network, processes, JSON and XML.
