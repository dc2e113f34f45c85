# glowlay

A desktop resource overlay for Linux (Wayland and X11). The library under
`src/` holds the verified logic: the configuration model and where the
configuration file is looked for (`config`), the rules that turn raw sensor,
disk and network readings into the statistics shown (`monitor`), the CPU
history shown as a graph (`history`), the window's placement and the
dashboard's storage rows (`layout`), and the text predicates they share
(`text`). `app/` is the GTK program around it: reading the system with
sysinfo and NVML, parsing `config.toml`, and drawing.
