# rs-summarizer

A web service that summarizes YouTube videos (through their subtitles),
Hacker News discussions and pasted text with Gemini and Hetzner-hosted models.

- `src/` is the library, written in Verus: URL recognition and
  normalization, subtitle (VTT) parsing, yt-dlp argument building and output
  classification, subtitle language choice, Hacker News text assembly and the
  comment walk, prompt building, request planning and stream accumulation,
  the model fallback pipeline and daily/per-minute limits, the generation
  lifecycle, markdown conversion and timestamp linking, submission planning,
  browsing, the export checks, and the cluster-title prompt batching. Each
  public function carries a contract, and the laws that tie functions
  together are stated as proof functions.
- `app/` is the server around it: axum routes, the SQLite store (sqlx),
  the yt-dlp process, HTTP fetches, the Gemini and OpenAI-compatible clients,
  embeddings and similarity search (floating point), and the `export-db`
  command.
- `tests/` exercises the library.

The prompt files (`prompts/*.txt`) and static assets (`static/`) are read at
run time from the working directory.
