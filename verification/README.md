# pi_ai

Adapters between one model of a conversation and the interfaces of several
providers of language models: Anthropic messages, OpenAI chat completions and
Responses (with Azure and Codex), Google generative AI and Vertex, Mistral, and
the image interface of OpenRouter.

`src/` is the library. Every function in it is verified with Verus: it builds the
requests, converts messages and tools, decodes streams and decides on retries,
and its contracts say exactly what comes out. JSON parsing, prices, time,
randomness and the environment are arguments. Functions named `law_...` state what holds of the
library as a whole.

`app/` is the ordinary Rust around it: it sends the requests and reads the
replies, on services that a `Host` supplies.

`tests/` runs the library on concrete conversations and streams.

Numbers are decimals in billionths; a JSON number that these cannot hold keeps
its text. Costs are counted finer, so that no price is rounded.

Models carry the name of Anthropic's series of models (`anthropic_series`), by
which two of the interfaces tell models apart and under which requests with a
subscription are sent.
