# linuxdo-accelerator

A local accelerator for linux.do: it takes over the site's domains through the
hosts file, serves them on this machine, and forwards each request to the real
site over a connection whose host name is encrypted or hidden behind a front
domain.

- `src/` is the library. Every rule of the accelerator stands there with its
  contract, proved by Verus: the configuration and its upkeep (`config`,
  `dns_hosts`, `migrate`), the hosts file (`hosts`, `hosts_laws`), HTTPS records
  and DNS over HTTPS (`https_record`, `doh`), resolving and caching upstreams
  (`resolve`, `resolve_cache`), routing and dispatching requests (`request`,
  `dispatch`), the recorded state (`state`), the operations of the service
  (`service`), commands and certificates of the operating system (`platform`,
  `trust`, `quoting`, `paths`), the certificates that are served with (`pem`),
  the command line (`cli`) and the window (`gui`).
  `text`, `space`, `number` and `lines` hold the operations on texts that the
  rest is built from. `outside` holds the calls into other crates, each behind a
  contract.
- `app/` is the program around it: files, processes, connections and drawing.
- `tests/` runs the library.
