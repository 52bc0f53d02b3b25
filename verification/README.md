# tiled_renderer

Draws an integrated circuit layout tile by tile. Each tile is rendered at full resolution
and then scaled down into its place in one picture of the whole layout.

`src/` plans the work and is verified with Verus: which shapes a tile consists of and which
shapes of the scene are used again for them (`shapes`, `layers`, `geometry`, `tiles`), which
pictures, sprites and cameras rendering takes (`cameras`, `texture`, `material`,
`render_layers`), how the scene is cleared when a rendering has ended (`channel`,
`despawn`), and what an application takes in (`plugin`). `scene` and `rendering` state what holds over whole runs.

`app/` carries the plans out on the entities and assets of a bevy application.
