# english_partner

Core of a voice assistant for spoken English practice, written in Verus.

`src/` is the verified library:

- `binary` — the binary frame format of the realtime speech service
  (encoding client events, decoding server frames);
- `json` — a plain-value model of JSON payloads and the lookups made on them
  (parsing and quoting are delegated to serde_json);
- `session`, `client_event`, `server_event`, `events` — what server frames
  mean as events, text-query frames, and the session payload records;
- `vad` — energy-based voice activity detection with hysteresis;
- `pipeline` — segmentation of captured audio into utterances;
- `audio` — audio formats and payloads;
- `conversation` — PCM framing for the server, decoding of server audio and
  the turn-taking decisions of a conversation;
- `ids` — connect and session identifiers written from clock readings;
- `soniox` — endpoints, requests and streaming transcript assembly of the
  Soniox speech service;
- `protocol` — conversation records.

`app/` is the program around it: microphone and speaker I/O, the WebSocket
and HTTP clients, JSON (de)serialization of the records, and the main loop.

`tests/` exercises the library on concrete inputs.
