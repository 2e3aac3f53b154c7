# aistatus

A desktop widget that shows the remaining quota of AI coding plans (GLM,
MiniMax, MiMo) in a small always-on-top window and a tray menu.

- `src/` is the verified library: what each provider's reply turns into,
  how the replies are merged into the cards of `balance.json`, cookie
  cleanup, reading and writing `config.json`, the built-in key decryption
  and where the windows go on screen.
- `app/` is the Tauri program around it: windows, tray, timers, HTTP
  requests, file access and the floating-point formatting.
- `tests/` runs the library on concrete values.

## Built-in keys

The GLM and MiniMax keys are compiled in XOR-encrypted. The build supplies
them as hex strings in three compile-time environment variables:

| variable               | content                          |
|------------------------|----------------------------------|
| `AISTATUS_XOR_KEY`     | the XOR key                      |
| `AISTATUS_ENC_GLM`     | the GLM key XOR-ed with it       |
| `AISTATUS_ENC_MINIMAX` | the MiniMax key XOR-ed with it   |

A provider whose variable is missing has no key and is not fetched.
