# Treat dispenser

A treat dispenser on an ESP32-C6 that is controlled via MQTT. To dispense a treat,
increment the integer value of the topic `treats/dispense` by 1.

`src/` holds the decisions of the device, each proved against its contract with Verus:

- `count`: the treat count in a message's payload.
- `channel`: the channel over which counts reach the servo, an `embassy-sync`
  publish/subscribe channel with a store for every reader, so that no count is lost.
- `session`: the MQTT session, from the network link to the messages.
- `servo`: the sweeps of the servo's arm.
- `wifi`: the Wi-Fi connection.
- `boot`: what happens from power-on.
- `timing`: waits in timer ticks.
- `device`: the device as a whole, with the laws that relate its tasks.

`app/` is the firmware around it. It does what the state machines ask for and hands back
what came of it. The library allocates, so the firmware sets up a heap. The settings come
from environment variables at build time, which can be set in `.cargo/config.toml`:
`SSID`, `PASSWORD`, `MQTT_USER`, `MQTT_PASSWORD` and `MQTT_HOST`.
