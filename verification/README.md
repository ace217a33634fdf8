# mayfly-helper

The **privileged** component of the Mayfly platform. `mayfly-helper` runs as **root** and does
nothing but perform a small, explicit set of OpenSSH host operations on behalf of the unprivileged
`mayfly-agent`, over an authenticated Unix Domain Socket.

| Operation | What it does |
|-----------|--------------|
| `Ping` | liveness probe; answers with the helper version |
| `EnsureDirectories` | create the managed directories with safe ownership/permissions |
| `InstallSshdDropin` | write `/etc/ssh/sshd_config.d/90-mayfly.conf`, validate (`sshd -t`), reload |
| `ApplyTrustedCaKeys` | atomically replace `TrustedUserCAKeys`, validate, reload, verify — **rollback on any failure** |
| `VerifyState` | check the managed files' permissions/ownership, that the drop-in is current, and that `sshd` is healthy |

## Layout

* `src/` — the helper's logic, as a library verified with Verus. It decides which system calls are
  made, in which order, and what follows from their answers; it makes none of them. The pieces that
  alternate with the host are state machines: an operation (`ops::run::OpRun`), an atomic write
  (`security::SecureWrite`), the binding of the socket (`server::BindRun`).
* `app/` — the program around it: logging, the filesystem, processes, the socket, JSON.
* `tests/` — tests of the library; the operations run on an in-memory host there.

## What is proved

Every function states what it returns for every input. Beyond that, among others:

* an apply leaves the old file or all of the new one, never anything else; if it fails it leaves the
  old one, unless the restoration fails too; if it succeeds, `sshd` has accepted, loaded and survived
  the new one (`ops::laws`);
* applying or installing what is in place already writes nothing and asks nothing of `sshd`;
* every operation ends, and succeeds on a host that gives good answers;
* an atomic write never exposes a partial file, or one under laxer permissions
  (`security::target_is_never_partial`);
* no operation is started for a request that was not authenticated
  (`server::only_authenticated_requests_run`);
* replies hold nothing but fixed, path-free texts;
* framing is unambiguous, and parsing undoes rendering (`protocol`, `ssh`).

What rests on trust is marked where it stands: a handful of functions of the standard library, the
effective user id (`rustix`) and the registration of signal handlers (`signal-hook`). The operations'
laws assume that the three configured paths name three different files, and that nobody else changes
them while an operation runs; where two settings name the same file, the laws do not hold. That the token
comparison takes constant time is not a statement about results and is not proved.

## Configuration (environment)

| Variable | Default |
|----------|---------|
| `MAYFLY_HELPER_SOCKET_PATH` | `/run/mayfly/helper.sock` |
| `MAYFLY_HELPER_TOKEN_PATH` | `/etc/mayfly-agent/helper.token` |
| `MAYFLY_HELPER_SOCKET_GID` | (unset) |
| `MAYFLY_HELPER_ALLOWED_UID` | (unset; uid pinning disabled) |
| `MAYFLY_HELPER_TRUSTED_CA_PATH` | `/etc/ssh/mayfly/trusted_user_ca_keys` |
| `MAYFLY_HELPER_DROPIN_PATH` | `/etc/ssh/sshd_config.d/90-mayfly.conf` |
| `MAYFLY_HELPER_MAIN_SSHD_CONFIG` | `/etc/ssh/sshd_config` |
| `MAYFLY_HELPER_SSHD_BINARY` | `/usr/sbin/sshd` |
| `MAYFLY_HELPER_SYSTEMCTL_BINARY` | `/usr/bin/systemctl` |
| `MAYFLY_HELPER_SERVICE_NAME` | `ssh` |
| `RUST_LOG` | `info` |
