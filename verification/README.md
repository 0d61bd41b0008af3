# mipcmanager_patch

A toolkit that adapts Xiaomi PC Manager and Interconnect (PcContinuity) on
non-Xiaomi Windows machines: region spoofing, the LAN audio broadcast mode,
the camera toast, the device-model proxy, the installer gate bypass and clean
uninstallation. An SMBIOS identity patch is prepared (field extraction and
trampoline assembly) but not yet applied to files.

The byte-level work (locating and rewriting patch sites, PE and .NET metadata
parsing, IL method-body injection, x64 trampoline assembly, SMBIOS table
reading), the decisions around it (which installer, which version directory,
which processes to close, when a patch is refused or retried, what each key
of the interactive menu does) and the text it reports are written in Verus
and carry contracts proved by the verifier. Resolving paths on disk, the
registry, processes, PowerShell and the installer launch stay in the program.

Layout:

- `src/` — the verified library. `infra/` holds byte search, little-endian
  helpers, text formatting and PowerShell result decoding; `dotnet/` holds the
  PE, metadata and method-body code used by the camera patch; the other
  modules hold one feature each, with `ops` composing their log lines and
  status report, `patch_run` the course of a patch operation and `menu` the
  interactive menu.
- `tests/` — tests of the library on concrete inputs.
- `app/` — the command-line program and the terminal menu: argument parsing,
  drawing, files, registry, processes, PowerShell and the Windows installer
  launch, calling the library for the decisions and byte changes.
