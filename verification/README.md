# velaris_lead_gen

A lead-generation bot that searches Google Maps for businesses without a web
site of their own and writes them into a PDF report.

- `src/` is the verified library: text handling, the scraper's decisions
  (`scrape`), the classification of web sites (`web_check`), the accumulation
  of leads between runs and the interactive answers (`session`), the report
  page (`report`) and the browser launch settings (`browser`).
- `app/` is the program around it: terminal prompts, the headless browser,
  HTTP requests, the session file and the PDF.
- `tests/` exercises the library on concrete values.
