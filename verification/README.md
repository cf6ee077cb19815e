# domain-probe

A command-line tool that inspects a URL or domain: HTTP status and
metadata, redirect behaviour (for the URL and its http/https twin), public
DNS records, the TLS handshake and certificate chain, security headers,
detected technologies, and RDAP registration data, with an overall grade.

## Layout

- `src/` is the library, verified with Verus. It holds every decision the
  tool takes, every line it prints and the JSON document it writes:
  - `cli` — section selection, the target URL model, timeouts;
  - `config`, `style` — configuration defaults, colour parsing, painting;
  - `probe/` — the probes' results and the rules applied to them
    (security header scoring, technology detection, DNS record handling,
    the redirect walk, RDAP entity selection, typed and from plain JSON,
    certificate reading);
  - `grade` — the component scores and the letter grade;
  - `report` — every section of the report, the quick view, the banner
    and the JSON report;
  - `streaming` — which sections to print as results arrive;
  - `logo/` — the logo, its frames and the animation timeline;
  - `text`, `time` — text measuring, padding, truncation; timestamps.
- `app/` is the program around it: argument parsing, the configuration
  file, network and DNS I/O, the TLS handshake, writing IP addresses as
  text, serialising and printing the JSON document, the terminal, the
  floating-point parts (weighted overall score, animation sampling) and
  the loops that sleep and draw.
- `tests/` exercises the library on concrete values.
